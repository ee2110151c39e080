//! The dispatcher's decisions. Event handles send commands; for each one,
//! `Dispatch::handle` updates the screens, the input lock and the handles'
//! states, and says what to write to the terminal and what to answer. The
//! program around it runs the loop: it reads the commands, performs the
//! outputs and routes the terminal's input events (`Dispatch::route`).

use vstd::prelude::*;
use crate::actions;
use crate::ansi::cursor::{csi_num, goto_seq};
use crate::ansi::screen::{clear_seq, resize_seq};
use crate::ansi::style::style_seq;
use crate::enums::{Clear, Color, Effect, StoreEvent, Style};
use crate::store::buffer::{Buffer, CellView, abs, index_of, clear_range, nil_range, cursor_fix};
use crate::store::screens::{Screen, Store, clamp, same_setup, screen_text};
use crate::unicode::extended_graphemes;

verus! {

/// What a program asks the terminal to do.
#[derive(Debug)]
pub enum Action {
    Goto(i16, i16),
    Up(i16),
    Down(i16),
    Left(i16),
    Right(i16),
    Clear(Clear),
    Prints(String),
    Printf(String),
    Flush,
    SetFx(u32),
    SetFg(Color),
    SetBg(Color),
    SetStyles(Color, Color, u32),
    ResetStyles,
    HideCursor,
    ShowCursor,
    EnableMouse,
    DisableMouse,
    EnableAlt,
    DisableAlt,
    Raw,
    Cook,
    Refresh,
    Switch,
    SwitchTo(usize),
    Resize,
    SyncSize(i16, i16),
    SyncTabSize(usize),
    SyncMarker(i16, i16),
    Jump,
}

/// What a handle asks about the current screen.
#[derive(Clone, Copy, Debug, PartialEq, Eq, Structural)]
pub enum State {
    Size(usize),
    Coord(usize),
    SysPos(usize),
    GetCh(usize),
}

/// A command from an event handle to the dispatcher.
#[derive(Debug)]
pub enum Cmd {
    Continue,
    Suspend(usize),
    Transmit(usize),
    Stop(usize),
    Lock(usize),
    Unlock,
    Signal(Action),
    Request(State),
}

/// A handle's side of the dispatcher: each method gives the command to
/// send.
pub struct EventHandle {
    pub id: usize,
}

impl EventHandle {
    /// Stop receiving input events for a while.
    pub fn suspend(&self) -> (res: Cmd)
        ensures
            res == Cmd::Suspend(self.id),
    {
        Cmd::Suspend(self.id)
    }

    /// Receive input events again.
    pub fn transmit(&self) -> (res: Cmd)
        ensures
            res == Cmd::Transmit(self.id),
    {
        Cmd::Transmit(self.id)
    }

    /// Stop receiving for good.
    pub fn stop(&self) -> (res: Cmd)
        ensures
            res == Cmd::Stop(self.id),
    {
        Cmd::Stop(self.id)
    }

    /// Take every input event for this handle alone.
    pub fn lock(&self) -> (res: Cmd)
        ensures
            res == Cmd::Lock(self.id),
    {
        Cmd::Lock(self.id)
    }

    /// Give the input events back to every handle.
    pub fn unlock(&self) -> (res: Cmd)
        ensures
            res == Cmd::Unlock,
    {
        Cmd::Unlock
    }

    /// Ask for an action on the terminal.
    pub fn signal(&self, action: Action) -> (res: Cmd)
        ensures
            res == Cmd::Signal(action),
    {
        Cmd::Signal(action)
    }

    /// Ask for the cursor of the current screen.
    pub fn coord(&self) -> (res: Cmd)
        ensures
            res == Cmd::Request(State::Coord(self.id)),
    {
        Cmd::Request(State::Coord(self.id))
    }

    /// Ask for the size of the current screen.
    pub fn size(&self) -> (res: Cmd)
        ensures
            res == Cmd::Request(State::Size(self.id)),
    {
        Cmd::Request(State::Size(self.id))
    }

    /// Ask the terminal for its cursor position.
    pub fn syspos(&self) -> (res: Cmd)
        ensures
            res == Cmd::Request(State::SysPos(self.id)),
    {
        Cmd::Request(State::SysPos(self.id))
    }

    /// Ask for the characters under the cursor.
    pub fn getch(&self) -> (res: Cmd)
        ensures
            res == Cmd::Request(State::GetCh(self.id)),
    {
        Cmd::Request(State::GetCh(self.id))
    }
}

/// A registered handle, as the dispatcher sees it.
#[derive(Clone, Copy, Debug)]
pub struct Emitter {
    pub id: usize,
    pub is_suspend: bool,
    pub is_running: bool,
}

/// What the program around the dispatcher must do.
#[derive(Debug)]
pub enum Output {
    /// Write the text to the terminal.
    Print(String),
    /// Write the text to the terminal and flush it.
    PrintFlush(String),
    /// Flush what was written.
    Flush,
    /// Put the terminal in raw mode.
    Raw,
    /// Put the terminal back in the mode it started in.
    Cook,
    /// Read the terminal's size and hand it to `Dispatch::resized`.
    QuerySize,
    /// Send the answer to the handle.
    Reply(usize, StoreEvent),
}

/// An answer, as a value.
pub ghost enum AnswerView {
    Size(i16, i16),
    Coord(i16, i16),
    SysPos(i16, i16),
    Pos(i16, i16),
    GetCh(Seq<char>),
}

/// An output, as a value.
pub ghost enum OutputView {
    Print(Seq<char>),
    PrintFlush(Seq<char>),
    Flush,
    Raw,
    Cook,
    QuerySize,
    Reply(usize, AnswerView),
}

impl View for Output {
    type V = OutputView;

    open spec fn view(&self) -> OutputView {
        match self {
            Output::Print(s) => OutputView::Print(s@),
            Output::PrintFlush(s) => OutputView::PrintFlush(s@),
            Output::Flush => OutputView::Flush,
            Output::Raw => OutputView::Raw,
            Output::Cook => OutputView::Cook,
            Output::QuerySize => OutputView::QuerySize,
            Output::Reply(id, e) => OutputView::Reply(*id, match e {
                StoreEvent::Size(a, b) => AnswerView::Size(*a, *b),
                StoreEvent::Coord(a, b) => AnswerView::Coord(*a, *b),
                StoreEvent::SysPos(a, b) => AnswerView::SysPos(*a, *b),
                StoreEvent::Pos(a, b) => AnswerView::Pos(*a, *b),
                StoreEvent::GetCh(s) => AnswerView::GetCh(s@),
            }),
        }
    }
}

/// The outputs, as values.
pub open spec fn out_views(outs: Seq<Output>) -> Seq<OutputView> {
    outs.map_values(|o: Output| o@)
}

/// Whether no two handles share an id.
pub open spec fn ids_unique(es: Seq<Emitter>) -> bool {
    forall|i: int, j: int| 0 <= i < es.len() && 0 <= j < es.len() && i != j ==> es[i].id != es[j].id
}

/// The position of the handle `id`, if it is registered.
pub open spec fn find(es: Seq<Emitter>, id: usize) -> Option<int> {
    if exists|i: int| 0 <= i < es.len() && es[i].id == id {
        Some(choose|i: int| 0 <= i < es.len() && es[i].id == id)
    } else {
        None
    }
}

/// The dispatcher's state: the screens, the handle that holds the input
/// lock (0 for none) and the registered handles.
pub struct Dispatch {
    pub store: Store,
    pub lock_owner: usize,
    pub emitters: Vec<Emitter>,
}

impl Dispatch {
    /// The screens are well-formed and no two handles share an id.
    pub open spec fn wf(&self) -> bool {
        &&& self.store.wf()
        &&& ids_unique(self.emitters@)
    }

    /// A dispatcher for a terminal of `w` by `h` cells whose cursor is at
    /// (col, row) and whose tabs are `tab` columns wide: one empty screen,
    /// with its cursor aligned to the terminal's (where that position fits
    /// a cell index), no lock and no handles.
    pub fn new(w: i16, h: i16, col: i16, row: i16, tab: usize) -> (res: Dispatch)
        requires
            Buffer::size_ok(w as int, h as int),
            1 <= tab <= i16::MAX,
        ensures
            res.wf(),
            res.lock_owner == 0,
            res.emitters@.len() == 0,
            res.store.screens().len() == 1,
            res.store.current_id() == 0,
            res.store.current().buffer.tabwidth == tab,
            res.store.current().buffer.width == w,
            res.store.current().buffer.height == h,
            !res.store.current().is_raw_enabled,
            !res.store.current().is_mouse_enabled,
            res.store.current().is_cursor_visible,
            res.store.current().buffer.cells_view() == Seq::new((w * h) as nat, |i: int| CellView::Nil),
            res.store.current().buffer.strbuf@ == Seq::<char>::empty(),
            res.store.current().buffer.style == (Color::Reset, Color::Reset, Effect::Reset.spec_bits()),
            res.store.current().buffer.savedpos == 0,
            !res.store.current().buffer.use_winapi,
            !res.store.current().buffer.can_modify,
            res.store.current().buffer.index == (if col > i16::MIN && row > i16::MIN && fits_spec(w as int, col as int, row as int) {
                cursor_fix(
                    Seq::new((w * h) as nat, |i: int| CellView::Nil),
                    w * h,
                    index_of(w as int, abs(col as int), abs(row as int)),
                ).1
            } else {
                0
            }),
    {
        let mut store = Store::new(w, h);
        store.sync_tab_size(tab);
        if col > i16::MIN && row > i16::MIN && fits_screen(w, col, row) {
            store.sync_goto(col, row);
        }
        Dispatch { store, lock_owner: 0, emitters: Vec::new() }
    }

    /// The position of the handle `id` among the registered ones.
    pub fn position(&self, id: usize) -> (res: Option<usize>)
        requires
            ids_unique(self.emitters@),
        ensures
            res == (match find(self.emitters@, id) {
                Some(i) => Some(i as usize),
                None => None,
            }),
            res matches Some(i) ==> i < self.emitters@.len() && self.emitters@[i as int].id == id,
    {
        let mut i: usize = 0;
        while i < self.emitters.len()
            invariant
                i <= self.emitters@.len(),
                ids_unique(self.emitters@),
                forall|j: int| 0 <= j < i ==> self.emitters@[j].id != id,
            decreases self.emitters.len() - i,
        {
            if self.emitters[i].id == id {
                assert(find(self.emitters@, id) == Some(i as int)) by {
                    assert(0 <= i < self.emitters@.len() && self.emitters@[i as int].id == id);
                    assert(exists|j: int| 0 <= j < self.emitters@.len() && self.emitters@[j].id == id);
                    let c = choose|j: int| 0 <= j < self.emitters@.len() && self.emitters@[j].id == id;
                    if c != i {
                        assert(self.emitters@[c].id != self.emitters@[i as int].id);
                    }
                }
                return Some(i);
            }
            i += 1;
        }
        None
    }
}

/// Whether (|col|, |row|) is a cell index of a screen `w` columns wide
/// that fits an `i16`.
pub open spec fn fits_spec(w: int, col: int, row: int) -> bool {
    abs(row) * w + abs(col) <= i16::MAX
}

/// Whether (|col|, |row|) gives a cell index that fits an `i16`.
fn fits_screen(w: i16, col: i16, row: i16) -> (res: bool)
    requires
        w > 0,
        col > i16::MIN,
        row > i16::MIN,
    ensures
        res == fits_spec(w as int, col as int, row as int),
{
    let c: i32 = if col < 0 { -(col as i32) } else { col as i32 };
    let r: i32 = if row < 0 { -(row as i32) } else { row as i32 };
    proof {
        assert(r * (w as i32) <= 32768 * 32767) by (nonlinear_arith)
            requires
                0 <= r <= 32767,
                0 < w <= 32767,
        ;
        assert(r * (w as i32) >= 0) by (nonlinear_arith)
            requires
                0 <= r,
                0 < w,
        ;
    }
    r * (w as i32) + c <= 32767
}

/// The buffer `f` is `b` with the cursor moved to `index` and settled as
/// `Buffer::cursor` does; the output and the settings are kept.
pub open spec fn moved(b: Buffer, f: Buffer, index: int) -> bool {
    &&& (f.cells_view(), f.index as int) == cursor_fix(b.cells_view(), b.width * b.height, index)
    &&& f.strbuf == b.strbuf
    &&& same_setup(f, b)
}

/// The screens of `s` with the current one's style set to `style`.
pub open spec fn with_style(s: Store, style: (Color, Color, u32)) -> Seq<Screen> {
    s.screens().update(s.current_id(), Screen { buffer: Buffer { style, ..s.current().buffer }, ..s.current() })
}

/// The screens of `s` with the current one's modes set.
pub open spec fn with_modes(s: Store, raw: bool, mouse: bool, cursor: bool) -> Seq<Screen> {
    s.screens().update(
        s.current_id(),
        Screen { is_raw_enabled: raw, is_mouse_enabled: mouse, is_cursor_visible: cursor, ..s.current() },
    )
}

/// `s1` is `s0` after the current screen's buffer was cleared with `clr`
/// (see `Buffer::clear`).
pub open spec fn cleared(s0: Store, s1: Store, clr: Clear) -> bool {
    let b = s0.current().buffer;
    let f = s1.current().buffer;
    let w = b.width as int;
    &&& s1.only_buffer(&s0)
    &&& clr is All ==> f.cells_view() == Seq::new((w * b.height) as nat, |i: int| CellView::Nil) && f.index == 0
    &&& !(clr is All) ==> ({
        let (c1, i) = cursor_fix(b.cells_view(), w * b.height, b.index as int);
        let (lo, hi) = clear_range(clr, w, b.height as int, i % w, i / w);
        &&& f.cells_view() == nil_range(c1, lo, hi)
        &&& f.index == (if clr is CurrentLn { (i / w) * w } else { i })
    })
    &&& f.strbuf == b.strbuf
    &&& same_setup(f, b)
}

/// `s1` is `s0` after `text` was written on the current screen (see
/// `Buffer::try_parse`): unchanged where it would go past the cells.
pub open spec fn written(s0: Store, s1: Store, text: Seq<char>) -> bool {
    let b = s0.current().buffer;
    let f = s1.current().buffer;
    match b.parsed(extended_graphemes(text)) {
        Some((c, o, i)) => s1.only_buffer(&s0) && f.cells_view() == c && f.strbuf@ == o && f.index == i
            && same_setup(f, b),
        None => s1.screens() == s0.screens() && s1.current_id() == s0.current_id(),
    }
}

/// What a signal writes and does to the screens (the lock and the handles
/// stay as they are).
pub open spec fn signaled(s0: Store, s1: Store, a: Action, outs: Seq<OutputView>) -> bool {
    let b0 = s0.current().buffer;
    let b1 = s1.current().buffer;
    let w = b0.width as int;
    let h = b0.height as int;
    let (col, row) = ((b0.index as int) % w, (b0.index as int) / w);
    let cur = s0.current();
    match a {
        Action::Goto(c, r) => outs == seq![OutputView::Print(goto_seq(abs(c as int), abs(r as int)))]
            && if fits_spec(w, c as int, r as int) {
                s1.only_buffer(&s0) && moved(b0, b1, index_of(w, abs(c as int), abs(r as int)))
            } else {
                s1 == s0
            },
        Action::Up(n) => outs == seq![OutputView::Print(csi_num(abs(n as int), 'A'))]
            && s1.only_buffer(&s0) && moved(b0, b1, index_of(w, col, clamp(row - n, h))),
        Action::Down(n) => outs == seq![OutputView::Print(csi_num(abs(n as int), 'B'))]
            && s1.only_buffer(&s0) && moved(b0, b1, index_of(w, col, clamp(row + n, h))),
        Action::Left(n) => outs == seq![OutputView::Print(csi_num(abs(n as int), 'D'))]
            && s1.only_buffer(&s0) && moved(b0, b1, index_of(w, clamp(col - n, w), row)),
        Action::Right(n) => outs == seq![OutputView::Print(csi_num(abs(n as int), 'C'))]
            && s1.only_buffer(&s0) && moved(b0, b1, index_of(w, clamp(col + n, w), row)),
        Action::Clear(clr) => outs == seq![OutputView::Print(clear_seq(clr))] && cleared(s0, s1, clr),
        Action::Prints(t) => outs == seq![OutputView::Print(t@)] && written(s0, s1, t@),
        Action::Printf(t) => outs == seq![OutputView::PrintFlush(t@)] && written(s0, s1, t@),
        Action::Flush => outs == seq![OutputView::Flush] && s1 == s0,
        Action::SetFx(fx) => outs == seq![OutputView::Print(style_seq(Style::Fx(fx)))]
            && s1.current_id() == s0.current_id() && s1.screens() == with_style(s0, (b0.style.0, b0.style.1, fx)),
        Action::SetFg(c) => outs == seq![OutputView::Print(style_seq(Style::Fg(c)))]
            && s1.current_id() == s0.current_id() && s1.screens() == with_style(s0, (c, b0.style.1, b0.style.2)),
        Action::SetBg(c) => outs == seq![OutputView::Print(style_seq(Style::Bg(c)))]
            && s1.current_id() == s0.current_id() && s1.screens() == with_style(s0, (b0.style.0, c, b0.style.2)),
        Action::SetStyles(f, b, fx) => outs == seq![OutputView::Print(
            style_seq(Style::Fg(f)) + style_seq(Style::Bg(b)) + style_seq(Style::Fx(fx)),
        )] && s1.current_id() == s0.current_id() && s1.screens() == with_style(s0, (f, b, fx)),
        Action::ResetStyles => outs == seq![OutputView::Print("\x1B[0m"@)]
            && s1.current_id() == s0.current_id()
            && s1.screens() == with_style(s0, (Color::Reset, Color::Reset, Effect::Reset.spec_bits())),
        Action::HideCursor => outs == seq![OutputView::Print("\x1B[?25l"@)]
            && s1.current_id() == s0.current_id()
            && s1.screens() == with_modes(s0, cur.is_raw_enabled, cur.is_mouse_enabled, false),
        Action::ShowCursor => outs == seq![OutputView::Print("\x1B[?25h"@)]
            && s1.current_id() == s0.current_id()
            && s1.screens() == with_modes(s0, cur.is_raw_enabled, cur.is_mouse_enabled, true),
        Action::EnableMouse => outs == seq![OutputView::Print("\x1B[?1000h\x1B[?1002h\x1B[?1015h\x1B[?1006h"@)]
            && s1.current_id() == s0.current_id()
            && s1.screens() == with_modes(s0, cur.is_raw_enabled, true, cur.is_cursor_visible),
        Action::DisableMouse => outs == seq![OutputView::Print("\x1B[?1006l\x1B[?1015l\x1B[?1002l\x1B[?1000l"@)]
            && s1.current_id() == s0.current_id()
            && s1.screens() == with_modes(s0, cur.is_raw_enabled, false, cur.is_cursor_visible),
        Action::EnableAlt => outs == seq![OutputView::PrintFlush("\x1B[?1049h"@)] && s1 == s0,
        Action::DisableAlt => outs == seq![OutputView::PrintFlush("\x1B[?1049l"@)] && s1 == s0,
        Action::Raw => outs == seq![OutputView::Raw]
            && s1.current_id() == s0.current_id()
            && s1.screens() == with_modes(s0, true, cur.is_mouse_enabled, cur.is_cursor_visible),
        Action::Cook => outs == seq![OutputView::Cook]
            && s1.current_id() == s0.current_id()
            && s1.screens() == with_modes(s0, false, cur.is_mouse_enabled, cur.is_cursor_visible),
        Action::Refresh => outs == seq![OutputView::Print(b0.strbuf@)] && s1.only_buffer(&s0)
            && b1.strbuf@ == Seq::<char>::empty() && b1.cells == b0.cells && b1.index == b0.index
            && same_setup(b1, b0),
        Action::Switch => outs == (if s0.current_id() == 0 {
            seq![OutputView::PrintFlush("\x1B[?1049h"@)]
        } else {
            seq![OutputView::Print(clear_seq(Clear::All))]
        }) + seq![
            OutputView::Cook,
            OutputView::Print("\x1B[?1006l\x1B[?1015l\x1B[?1002l\x1B[?1000l"@),
            OutputView::Print("\x1B[?25h"@),
            OutputView::Print("\x1B[0m"@),
            OutputView::Print(goto_seq(0, 0)),
            OutputView::Flush,
        ] && s1.screens().len() == s0.screens().len() + 1
            && s1.screens().take(s0.screens().len() as int) == s0.screens()
            && s1.current_id() == s0.screens().len()
            && !s1.current().is_raw_enabled && !s1.current().is_mouse_enabled && s1.current().is_cursor_visible
            && b1.width == b0.width && b1.height == b0.height
            && b1.cells_view() == Seq::new((w * h) as nat, |i: int| CellView::Nil) && b1.index == 0,
        Action::SwitchTo(id) => if id == s0.current_id() || id >= s0.screens().len() {
            outs == Seq::<OutputView>::empty() && s1 == s0
        } else {
            let sc = s0.screens()[id as int];
            let sb = sc.buffer;
            let sw = sb.width as int;
            let head = if id == 0 {
                seq![OutputView::PrintFlush("\x1B[?1049l"@)]
            } else {
                (if s0.current_id() == 0 {
                    seq![OutputView::PrintFlush("\x1B[?1049h"@)]
                } else {
                    Seq::empty()
                }) + seq![
                    OutputView::Print(clear_seq(Clear::All)),
                    OutputView::Print(goto_seq(0, 0)),
                    OutputView::Print(screen_text(sb.cells_view())),
                    OutputView::Print(goto_seq((sb.index as int) % sw, (sb.index as int) / sw)),
                    OutputView::Flush,
                ]
            };
            let tail = seq![
                if sc.is_raw_enabled { OutputView::Raw } else { OutputView::Cook },
                OutputView::Print(if sc.is_mouse_enabled {
                    "\x1B[?1000h\x1B[?1002h\x1B[?1015h\x1B[?1006h"@
                } else {
                    "\x1B[?1006l\x1B[?1015l\x1B[?1002l\x1B[?1000l"@
                }),
                OutputView::Print(if sc.is_cursor_visible { "\x1B[?25h"@ } else { "\x1B[?25l"@ }),
                OutputView::Flush,
            ];
            outs == head + tail && s1.screens() == s0.screens() && s1.current_id() == id
        },
        Action::Resize => outs == seq![OutputView::QuerySize] && s1 == s0,
        Action::SyncSize(nw, nh) => outs == seq![OutputView::PrintFlush(resize_seq(nw as int, nh as int))]
            && resized(s0, s1, nw, nh),
        Action::SyncTabSize(n) => outs == Seq::<OutputView>::empty() && if 1 <= n <= i16::MAX {
            s1.current_id() == s0.current_id()
                && s1.screens() == s0.screens().update(
                s0.current_id(),
                Screen { buffer: Buffer { tabwidth: n, ..b0 }, ..cur },
            )
        } else {
            s1 == s0
        },
        Action::SyncMarker(c, r) => outs == Seq::<OutputView>::empty()
            && if c > i16::MIN && r > i16::MIN && fits_spec(w, c as int, r as int) {
            s1.current_id() == s0.current_id()
                && s1.screens() == s0.screens().update(
                s0.current_id(),
                Screen {
                    buffer: Buffer { savedpos: index_of(w, abs(c as int), abs(r as int)) as usize, ..b0 },
                    ..cur
                },
            )
        } else {
            s1 == s0
        },
        Action::Jump => outs == Seq::<OutputView>::empty() && s1.only_buffer(&s0) && ({
            let (c1, i1) = cursor_fix(b0.cells_view(), w * h, b0.index as int);
            let (c2, i2) = cursor_fix(c1, w * h, b0.savedpos as int);
            &&& b1.cells_view() == c2
            &&& b1.index == i2
            &&& b1.savedpos == i1
            &&& b1.strbuf == b0.strbuf
            &&& b1.width == b0.width && b1.height == b0.height && b1.style == b0.style
            &&& b1.tabwidth == b0.tabwidth && b1.can_modify == b0.can_modify && b1.use_winapi == b0.use_winapi
        }),
    }
}

/// `s1` is `s0` after its current screen was resized to `nw` by `nh` (see
/// `Store::sync_size`); unchanged where that size does not fit.
pub open spec fn resized(s0: Store, s1: Store, nw: i16, nh: i16) -> bool {
    let b = s0.current().buffer;
    let f = s1.current().buffer;
    if Buffer::size_ok(nw as int, nh as int) {
        let cells = if nw * nh <= b.cells_view().len() {
            b.cells_view().take(nw * nh)
        } else {
            b.cells_view() + Seq::new((nw * nh - b.cells_view().len()) as nat, |i: int| CellView::Nil)
        };
        &&& s1.only_buffer(&s0)
        &&& (f.cells_view(), f.index as int) == cursor_fix(cells, nw * nh, b.index as int)
        &&& f.width == nw && f.height == nh
        &&& f.strbuf@ == b.strbuf@ && f.style == b.style && f.savedpos == b.savedpos
        &&& f.tabwidth == b.tabwidth && f.can_modify == b.can_modify && f.use_winapi == b.use_winapi
    } else {
        s1 == s0
    }
}

/// The signals that the terminal takes without overflowing a coordinate.
pub open spec fn signal_ok(a: Action) -> bool {
    match a {
        Action::Goto(c, r) => c > i16::MIN && r > i16::MIN && abs(c as int) < i16::MAX && abs(r as int) < i16::MAX,
        Action::Up(n) => n > i16::MIN,
        Action::Down(n) => n > i16::MIN,
        Action::Left(n) => n > i16::MIN,
        Action::Right(n) => n > i16::MIN,
        _ => true,
    }
}

/// A single output.
fn one(o: Output) -> (v: Vec<Output>)
    ensures
        out_views(v@) == seq![o@],
{
    let mut v: Vec<Output> = Vec::new();
    v.push(o);
    assert(out_views(v@) =~= seq![o@]);
    v
}

/// No output.
fn none() -> (v: Vec<Output>)
    ensures
        out_views(v@) == Seq::<OutputView>::empty(),
{
    let v: Vec<Output> = Vec::new();
    assert(out_views(v@) =~= Seq::<OutputView>::empty());
    v
}

/// Appends an output.
fn push_out(v: &mut Vec<Output>, o: Output)
    ensures
        out_views(final(v)@) == out_views(old(v)@).push(o@),
{
    v.push(o);
    assert(out_views(final(v)@) =~= out_views(old(v)@).push(o@));
}

/// Cursor moves.
fn cursor_signal(store: &mut Store, a: Action) -> (outs: Vec<Output>)
    requires
        old(store).wf(),
        signal_ok(a),
        a is Goto || a is Up || a is Down || a is Left || a is Right,
    ensures
        final(store).wf(),
        signaled(*old(store), *final(store), a, out_views(outs@)),
{
    match a {
        Action::Goto(c, r) => {
            let (w, _) = store.size();
            assert(store.screens()[store.current_id()].ready());
            if fits_screen(w, c, r) {
                store.sync_goto(c, r);
            }
            one(Output::Print(actions::goto(c, r)))
        },
        Action::Up(n) => {
            store.sync_up(n);
            one(Output::Print(actions::up(n)))
        },
        Action::Down(n) => {
            store.sync_down(n);
            one(Output::Print(actions::down(n)))
        },
        Action::Left(n) => {
            store.sync_left(n);
            one(Output::Print(actions::left(n)))
        },
        Action::Right(n) => {
            store.sync_right(n);
            one(Output::Print(actions::right(n)))
        },
        _ => none(),
    }
}

/// Style settings.
fn style_signal(store: &mut Store, a: Action) -> (outs: Vec<Output>)
    requires
        old(store).wf(),
        a is SetFx || a is SetFg || a is SetBg || a is SetStyles || a is ResetStyles,
    ensures
        final(store).wf(),
        signaled(*old(store), *final(store), a, out_views(outs@)),
{
    match a {
        Action::SetFx(fx) => {
            store.sync_style(Style::Fx(fx));
            one(Output::Print(actions::set_fx(fx)))
        },
        Action::SetFg(c) => {
            store.sync_style(Style::Fg(c));
            one(Output::Print(actions::set_fg(c)))
        },
        Action::SetBg(c) => {
            store.sync_style(Style::Bg(c));
            one(Output::Print(actions::set_bg(c)))
        },
        Action::SetStyles(f, b, fx) => {
            store.sync_styles(f, b, fx);
            one(Output::Print(actions::set_styles(f, b, fx)))
        },
        Action::ResetStyles => {
            store.sync_styles(Color::Reset, Color::Reset, Effect::Reset.bits());
            one(Output::Print(actions::reset_styles()))
        },
        _ => none(),
    }
}

/// Cursor, mouse and raw modes.
fn mode_signal(store: &mut Store, a: Action) -> (outs: Vec<Output>)
    requires
        old(store).wf(),
        a is HideCursor || a is ShowCursor || a is EnableMouse || a is DisableMouse || a is Raw || a is Cook,
    ensures
        final(store).wf(),
        signaled(*old(store), *final(store), a, out_views(outs@)),
{
    match a {
        Action::HideCursor => {
            store.sync_cursor(false);
            one(Output::Print(actions::hide_cursor()))
        },
        Action::ShowCursor => {
            store.sync_cursor(true);
            one(Output::Print(actions::show_cursor()))
        },
        Action::EnableMouse => {
            store.sync_mouse(true);
            one(Output::Print(actions::enable_mouse()))
        },
        Action::DisableMouse => {
            store.sync_mouse(false);
            one(Output::Print(actions::disable_mouse()))
        },
        Action::Raw => {
            store.sync_raw(true);
            one(Output::Raw)
        },
        Action::Cook => {
            store.sync_raw(false);
            one(Output::Cook)
        },
        _ => none(),
    }
}

/// Writing, clearing, sizes, marks and rendering.
fn screen_signal(store: &mut Store, a: Action) -> (outs: Vec<Output>)
    requires
        old(store).wf(),
        a is Clear || a is Prints || a is Printf || a is Flush || a is EnableAlt || a is DisableAlt
            || a is Resize || a is SyncSize || a is SyncTabSize || a is SyncMarker || a is Jump || a is Refresh,
    ensures
        final(store).wf(),
        signaled(*old(store), *final(store), a, out_views(outs@)),
{
    match a {
        Action::Clear(clr) => {
            store.sync_clear(clr);
            one(Output::Print(actions::clear(clr)))
        },
        Action::Prints(t) => {
            let ok = store.sync_content(t.as_str());
            one(Output::Print(t))
        },
        Action::Printf(t) => {
            let ok = store.sync_content(t.as_str());
            one(Output::PrintFlush(t))
        },
        Action::Flush => one(Output::Flush),
        Action::EnableAlt => one(Output::PrintFlush(actions::enable_alt())),
        Action::DisableAlt => one(Output::PrintFlush(actions::disable_alt())),
        Action::Resize => one(Output::QuerySize),
        Action::SyncSize(nw, nh) => {
            if size_fits(nw, nh) {
                store.sync_size(nw, nh);
            }
            one(Output::PrintFlush(actions::resize(nw, nh)))
        },
        Action::SyncTabSize(n) => {
            if 1 <= n && n <= 32767 {
                store.sync_tab_size(n);
            }
            none()
        },
        Action::SyncMarker(c, r) => {
            let (w, _) = store.size();
            assert(store.screens()[store.current_id()].ready());
            if c > i16::MIN && r > i16::MIN && fits_screen(w, c, r) {
                store.sync_marker(c, r);
            }
            none()
        },
        Action::Jump => {
            store.jump();
            none()
        },
        Action::Refresh => {
            let text = store.render();
            one(Output::Print(text))
        },
        _ => none(),
    }
}

/// Whether a `w` by `h` screen fits (see `Buffer::size_ok`).
pub fn size_fits(w: i16, h: i16) -> (res: bool)
    ensures
        res == Buffer::size_ok(w as int, h as int),
{
    if w <= 0 || h <= 0 {
        return false;
    }
    proof {
        assert((w as i32) * (h as i32) <= 32767 * 32767) by (nonlinear_arith)
            requires
                0 < w <= 32767,
                0 < h <= 32767,
        ;
    }
    let cells = (w as i32) * (h as i32);
    cells <= 32767
}

/// Opens a new screen of the current size and makes it current.
fn switch_new(store: &mut Store) -> (outs: Vec<Output>)
    requires
        old(store).wf(),
    ensures
        final(store).wf(),
        signaled(*old(store), *final(store), Action::Switch, out_views(outs@)),
{
        let first = store.id() == 0;
        let mut outs = if first {
            one(Output::PrintFlush(actions::enable_alt()))
        } else {
            one(Output::Print(actions::clear(Clear::All)))
        };
        let ghost head = out_views(outs@);
        let (w, h) = store.size();
        assert(store.screens()[store.current_id()].ready());
        store.new_screen(w, h);
        push_out(&mut outs, Output::Cook);
        push_out(&mut outs, Output::Print(actions::disable_mouse()));
        push_out(&mut outs, Output::Print(actions::show_cursor()));
        push_out(&mut outs, Output::Print(actions::reset_styles()));
        push_out(&mut outs, Output::Print(actions::goto(0, 0)));
        push_out(&mut outs, Output::Flush);
        assert(out_views(outs@) =~= head + seq![
            OutputView::Cook,
            OutputView::Print("\x1B[?1006l\x1B[?1015l\x1B[?1002l\x1B[?1000l"@),
            OutputView::Print("\x1B[?25h"@),
            OutputView::Print("\x1B[0m"@),
            OutputView::Print(goto_seq(0, 0)),
            OutputView::Flush,
        ]);
        outs
    
}

/// Makes the screen `id` current and restores what it showed.
fn switch_to(store: &mut Store, id: usize) -> (outs: Vec<Output>)
    requires
        old(store).wf(),
    ensures
        final(store).wf(),
        signaled(*old(store), *final(store), Action::SwitchTo(id), out_views(outs@)),
{
        let current = store.id();
        if current == id || !store.screen_exists(id) {
            return none();
        }
        store.set(id);
        let mut outs = none();
        if id == 0 {
            push_out(&mut outs, Output::PrintFlush(actions::disable_alt()));
            assert(out_views(outs@) =~= seq![OutputView::PrintFlush("\x1B[?1049l"@)]);
        } else {
            if current == 0 {
                push_out(&mut outs, Output::PrintFlush(actions::enable_alt()));
            }
            let ghost pre = out_views(outs@);
            push_out(&mut outs, Output::Print(actions::clear(Clear::All)));
            let text = store.contents();
            push_out(&mut outs, Output::Print(actions::goto(0, 0)));
            push_out(&mut outs, Output::Print(text));
            let (col, row) = store.coord();
            proof {
                let b = store.current().buffer;
                assert(store.screens()[store.current_id()].ready());
                assert(b.width <= 32767 && b.height <= 32767) by (nonlinear_arith)
                    requires
                        b.width * b.height <= 32767,
                        b.height >= 1,
                        b.width >= 1,
                ;
                lemma_coord_bound(b.width as int, b.height as int, b.index as int);
            }
            push_out(&mut outs, Output::Print(actions::goto(col, row)));
            push_out(&mut outs, Output::Flush);
            let ghost sb = store.current().buffer;
            assert(out_views(outs@) =~= pre + seq![
                OutputView::Print(clear_seq(Clear::All)),
                OutputView::Print(goto_seq(0, 0)),
                OutputView::Print(screen_text(sb.cells_view())),
                OutputView::Print(goto_seq((sb.index as int) % (sb.width as int), (sb.index as int) / (sb.width as int))),
                OutputView::Flush,
            ]);
            assert(pre =~= (if current == 0 {
                seq![OutputView::PrintFlush("\x1B[?1049h"@)]
            } else {
                Seq::<OutputView>::empty()
            }));
        }
        let ghost head = out_views(outs@);
        let raw = store.is_raw();
        let mouse = store.is_mouse();
        let show = store.is_cursor();
        push_out(&mut outs, if raw { Output::Raw } else { Output::Cook });
        push_out(&mut outs, Output::Print(if mouse { actions::enable_mouse() } else { actions::disable_mouse() }));
        push_out(&mut outs, Output::Print(if show { actions::show_cursor() } else { actions::hide_cursor() }));
        push_out(&mut outs, Output::Flush);
        assert(out_views(outs@) =~= head + seq![
            if raw { OutputView::Raw } else { OutputView::Cook },
            OutputView::Print(if mouse {
                "\x1B[?1000h\x1B[?1002h\x1B[?1015h\x1B[?1006h"@
            } else {
                "\x1B[?1006l\x1B[?1015l\x1B[?1002l\x1B[?1000l"@
            }),
            OutputView::Print(if show { "\x1B[?25h"@ } else { "\x1B[?25l"@ }),
            OutputView::Flush,
        ]);
        outs
    
}

/// The column and row of a cell index are within the screen.
proof fn lemma_coord_bound(w: int, h: int, index: int)
    requires
        w >= 1,
        h >= 1,
        0 <= index < w * h,
    ensures
        0 <= index % w < w,
        0 <= index / w < h,
{
    crate::store::buffer::lemma_coord(w, h, index);
}

/// The handles with the one `id`, if registered, marked as suspended or
/// not.
pub open spec fn with_suspend(es: Seq<Emitter>, id: usize, v: bool) -> Seq<Emitter> {
    match find(es, id) {
        Some(i) => es.update(i, Emitter { is_suspend: v, ..es[i] }),
        None => es,
    }
}

/// The handles with the one `id`, if registered, marked as stopped.
pub open spec fn with_stopped(es: Seq<Emitter>, id: usize) -> Seq<Emitter> {
    match find(es, id) {
        Some(i) => es.update(i, Emitter { is_running: false, ..es[i] }),
        None => es,
    }
}

/// The commands that the terminal takes without overflowing a coordinate.
pub open spec fn cmd_ok(cmd: Cmd) -> bool {
    match cmd {
        Cmd::Signal(a) => signal_ok(a),
        _ => true,
    }
}

/// Whether the command's coordinates fit (see `cmd_ok`).
pub fn cmd_fits(cmd: &Cmd) -> (res: bool)
    ensures
        res == cmd_ok(*cmd),
{
    match cmd {
        Cmd::Signal(Action::Goto(c, r)) => {
            *c > i16::MIN && *r > i16::MIN && (if *c < 0 { -*c } else { *c }) < i16::MAX
                && (if *r < 0 { -*r } else { *r }) < i16::MAX
        },
        Cmd::Signal(Action::Up(n)) => *n > i16::MIN,
        Cmd::Signal(Action::Down(n)) => *n > i16::MIN,
        Cmd::Signal(Action::Left(n)) => *n > i16::MIN,
        Cmd::Signal(Action::Right(n)) => *n > i16::MIN,
        _ => true,
    }
}

/// What a command does to the dispatcher and what it outputs.
pub open spec fn handled(d0: Dispatch, d1: Dispatch, cmd: Cmd, outs: Seq<OutputView>) -> bool {
    let b0 = d0.store.current().buffer;
    let w = b0.width as int;
    match cmd {
        Cmd::Continue => outs.len() == 0 && d1 == d0,
        Cmd::Suspend(id) => outs.len() == 0 && d1.store == d0.store && d1.lock_owner == d0.lock_owner
            && d1.emitters@ == with_suspend(d0.emitters@, id, true),
        Cmd::Transmit(id) => outs.len() == 0 && d1.store == d0.store && d1.lock_owner == d0.lock_owner
            && d1.emitters@ == with_suspend(d0.emitters@, id, false),
        Cmd::Stop(id) => outs.len() == 0 && d1.store == d0.store && d1.lock_owner == d0.lock_owner
            && d1.emitters@ == with_stopped(d0.emitters@, id),
        Cmd::Lock(id) => outs.len() == 0 && d1.store == d0.store && d1.emitters == d0.emitters
            && d1.lock_owner == (if d0.lock_owner == 0 { id } else { d0.lock_owner }),
        Cmd::Unlock => outs.len() == 0 && d1.store == d0.store && d1.emitters == d0.emitters
            && d1.lock_owner == 0,
        Cmd::Signal(a) => d1.lock_owner == d0.lock_owner && d1.emitters == d0.emitters
            && signaled(d0.store, d1.store, a, outs),
        Cmd::Request(State::Size(id)) => d1 == d0 && outs == (if find(d0.emitters@, id) is Some {
            seq![OutputView::Reply(id, AnswerView::Size(b0.width, b0.height))]
        } else {
            Seq::empty()
        }),
        Cmd::Request(State::Coord(id)) => d1 == d0 && outs == (if find(d0.emitters@, id) is Some {
            seq![OutputView::Reply(id, AnswerView::Coord(
                ((b0.index as int) % w) as i16,
                ((b0.index as int) / w) as i16,
            ))]
        } else {
            Seq::empty()
        }),
        Cmd::Request(State::SysPos(id)) => d1 == d0 && outs == (if d0.lock_owner == 0 {
            seq![OutputView::PrintFlush("\x1B[6n"@)]
        } else {
            Seq::empty()
        }),
        Cmd::Request(State::GetCh(id)) => d1.lock_owner == d0.lock_owner && d1.emitters == d0.emitters
            && if find(d0.emitters@, id) is Some {
            let (c, i) = cursor_fix(b0.cells_view(), w * b0.height, b0.index as int);
            let b1 = d1.store.current().buffer;
            &&& d1.store.only_buffer(&d0.store)
            &&& b1.cells_view() == c && b1.index == i && b1.strbuf == b0.strbuf && same_setup(b1, b0)
            &&& outs == seq![OutputView::Reply(id, AnswerView::GetCh(crate::store::buffer::cell_text(c[i])))]
        } else {
            d1.store == d0.store && outs.len() == 0
        },
    }
}

impl Dispatch {
    /// Carries out a signal (see `signaled`).
    pub fn signal(&mut self, a: Action) -> (outs: Vec<Output>)
        requires
            old(self).wf(),
            signal_ok(a),
        ensures
            final(self).wf(),
            final(self).lock_owner == old(self).lock_owner,
            final(self).emitters == old(self).emitters,
            signaled(old(self).store, final(self).store, a, out_views(outs@)),
    {
        let group: u8 = match &a {
            Action::Goto(..) | Action::Up(..) | Action::Down(..) | Action::Left(..) | Action::Right(..) => 0,
            Action::SetFx(..) | Action::SetFg(..) | Action::SetBg(..) | Action::SetStyles(..)
            | Action::ResetStyles => 1,
            Action::HideCursor | Action::ShowCursor | Action::EnableMouse | Action::DisableMouse
            | Action::Raw | Action::Cook => 2,
            Action::Switch => 3,
            Action::SwitchTo(..) => 4,
            _ => 5,
        };
        if group == 0 {
            cursor_signal(&mut self.store, a)
        } else if group == 1 {
            style_signal(&mut self.store, a)
        } else if group == 2 {
            mode_signal(&mut self.store, a)
        } else if group == 3 {
            switch_new(&mut self.store)
        } else if group == 4 {
            match a {
                Action::SwitchTo(id) => switch_to(&mut self.store, id),
                _ => none(),
            }
        } else {
            screen_signal(&mut self.store, a)
        }
    }

    /// Marks the handle `id`, if registered, as suspended or not.
    fn set_suspend(&mut self, id: usize, v: bool)
        requires
            old(self).wf(),
        ensures
            final(self).wf(),
            final(self).store == old(self).store,
            final(self).lock_owner == old(self).lock_owner,
            final(self).emitters@ == with_suspend(old(self).emitters@, id, v),
    {
        if let Some(i) = self.position(id) {
            let e = self.emitters[i];
            self.emitters.set(i, Emitter { is_suspend: v, ..e });
            assert(ids_unique(self.emitters@)) by {
                assert forall|a: int, b: int|
                    0 <= a < self.emitters@.len() && 0 <= b < self.emitters@.len() && a != b implies
                    self.emitters@[a].id != self.emitters@[b].id by {
                    assert(old(self).emitters@[a].id != old(self).emitters@[b].id);
                }
            }
        }
    }

    /// Marks the handle `id`, if registered, as stopped.
    fn set_stopped(&mut self, id: usize)
        requires
            old(self).wf(),
        ensures
            final(self).wf(),
            final(self).store == old(self).store,
            final(self).lock_owner == old(self).lock_owner,
            final(self).emitters@ == with_stopped(old(self).emitters@, id),
    {
        if let Some(i) = self.position(id) {
            let e = self.emitters[i];
            self.emitters.set(i, Emitter { is_running: false, ..e });
            assert(ids_unique(self.emitters@)) by {
                assert forall|a: int, b: int|
                    0 <= a < self.emitters@.len() && 0 <= b < self.emitters@.len() && a != b implies
                    self.emitters@[a].id != self.emitters@[b].id by {
                    assert(old(self).emitters@[a].id != old(self).emitters@[b].id);
                }
            }
        }
    }

    /// Whether `handle` can carry out `cmd`: its coordinates fit
    /// (`cmd_ok`), and a registered handle asks for the text under the
    /// cursor only where there is some (`Store::getch_ok`).
    pub open spec fn handle_ok(&self, cmd: Cmd) -> bool {
        &&& cmd_ok(cmd)
        &&& match cmd {
            Cmd::Request(State::GetCh(id)) => find(self.emitters@, id) is Some ==> self.store.getch_ok(),
            _ => true,
        }
    }

    /// Whether `handle` can carry out `cmd` (see `handle_ok`).
    pub fn can_handle(&self, cmd: &Cmd) -> (res: bool)
        requires
            self.wf(),
        ensures
            res == self.handle_ok(*cmd),
    {
        if !cmd_fits(cmd) {
            return false;
        }
        match cmd {
            Cmd::Request(State::GetCh(id)) => self.position(*id).is_none() || self.store.can_getch(),
            _ => true,
        }
    }

    /// Handles one command (see `handled`).
    pub fn handle(&mut self, cmd: Cmd) -> (outs: Vec<Output>)
        requires
            old(self).wf(),
            old(self).handle_ok(cmd),
        ensures
            final(self).wf(),
            handled(*old(self), *final(self), cmd, out_views(outs@)),
    {
        match cmd {
            Cmd::Continue => none(),
            Cmd::Suspend(id) => {
                self.set_suspend(id, true);
                none()
            },
            Cmd::Transmit(id) => {
                self.set_suspend(id, false);
                none()
            },
            Cmd::Stop(id) => {
                self.set_stopped(id);
                none()
            },
            Cmd::Lock(id) => {
                if self.lock_owner == 0 {
                    self.lock_owner = id;
                }
                none()
            },
            Cmd::Unlock => {
                self.lock_owner = 0;
                none()
            },
            Cmd::Signal(a) => self.signal(a),
            Cmd::Request(st) => self.request(st),
        }
    }

    /// Answers a request (see `handled`).
    fn request(&mut self, st: State) -> (outs: Vec<Output>)
        requires
            old(self).wf(),
            old(self).handle_ok(Cmd::Request(st)),
        ensures
            final(self).wf(),
            handled(*old(self), *final(self), Cmd::Request(st), out_views(outs@)),
    {
        match st {
            State::Size(id) => {
                if self.position(id).is_some() {
                    let (w, h) = self.store.size();
                    one(Output::Reply(id, StoreEvent::Size(w, h)))
                } else {
                    none()
                }
            },
            State::Coord(id) => {
                if self.position(id).is_some() {
                    let (col, row) = self.store.coord();
                    one(Output::Reply(id, StoreEvent::Coord(col, row)))
                } else {
                    none()
                }
            },
            State::SysPos(_) => {
                if self.lock_owner == 0 {
                    one(Output::PrintFlush(actions::query_pos()))
                } else {
                    none()
                }
            },
            State::GetCh(id) => {
                if self.position(id).is_some() {
                    let s = self.store.getch();
                    one(Output::Reply(id, StoreEvent::GetCh(s)))
                } else {
                    none()
                }
            },
        }
    }
}

/// The handles that are still running, in order.
pub open spec fn running(es: Seq<Emitter>) -> Seq<Emitter> {
    es.filter(|e: Emitter| e.is_running)
}

/// The handles an input event goes to, with the lock holder `owner`: every
/// running handle that is not suspended when no one holds the lock; else
/// the holder alone, if it is still registered.
pub open spec fn recipients(es: Seq<Emitter>, owner: usize) -> Seq<usize> {
    if owner == 0 {
        es.filter(|e: Emitter| !e.is_suspend).map_values(|e: Emitter| e.id)
    } else if find(es, owner) is Some {
        seq![owner]
    } else {
        Seq::empty()
    }
}

impl Dispatch {
    /// Drops the stopped handles, then tells which handles an input event
    /// goes to (see `recipients`); where the lock holder is gone, the lock
    /// is released and the event goes to no one.
    pub fn route(&mut self) -> (ids: Vec<usize>)
        requires
            old(self).wf(),
        ensures
            final(self).wf(),
            final(self).store == old(self).store,
            final(self).emitters@ == running(old(self).emitters@),
            ids@ == recipients(running(old(self).emitters@), old(self).lock_owner),
            final(self).lock_owner == (if old(self).lock_owner != 0
                && find(running(old(self).emitters@), old(self).lock_owner) is None {
                0
            } else {
                old(self).lock_owner
            }),
    {
        let mut kept: Vec<Emitter> = Vec::new();
        let mut i: usize = 0;
        while i < self.emitters.len()
            invariant
                i <= self.emitters@.len(),
                self.emitters@ == old(self).emitters@,
                kept@ == running(self.emitters@.take(i as int)),
            decreases self.emitters.len() - i,
        {
            let e = self.emitters[i];
            proof {
                let t = self.emitters@.take(i as int + 1);
                assert(t.drop_last() =~= self.emitters@.take(i as int));
                reveal(Seq::filter);
            }
            if e.is_running {
                kept.push(e);
            }
            i += 1;
        }
        assert(self.emitters@.take(self.emitters@.len() as int) =~= self.emitters@);
        proof {
            lemma_filter_unique(old(self).emitters@);
        }
        self.emitters = kept;
        let owner = self.lock_owner;
        if owner == 0 {
            let mut ids: Vec<usize> = Vec::new();
            let mut j: usize = 0;
            while j < self.emitters.len()
                invariant
                    j <= self.emitters@.len(),
                    ids@ == self.emitters@.take(j as int).filter(|e: Emitter| !e.is_suspend).map_values(|e: Emitter| e.id),
                decreases self.emitters.len() - j,
            {
                let e = self.emitters[j];
                proof {
                    let t = self.emitters@.take(j as int + 1);
                    assert(t.drop_last() =~= self.emitters@.take(j as int));
                    reveal(Seq::filter);
                }
                if !e.is_suspend {
                    ids.push(e.id);
                }
                proof {
                    let t = self.emitters@.take(j as int + 1);
                    let f = t.filter(|e: Emitter| !e.is_suspend);
                    let f0 = self.emitters@.take(j as int).filter(|e: Emitter| !e.is_suspend);
                    if !e.is_suspend {
                        assert(f == f0.push(e));
                        assert(f.map_values(|e: Emitter| e.id) =~= f0.map_values(|e: Emitter| e.id).push(e.id));
                    } else {
                        assert(f == f0);
                    }
                }
                j += 1;
            }
            assert(self.emitters@.take(self.emitters@.len() as int) =~= self.emitters@);
            ids
        } else {
            match self.position(owner) {
                Some(_) => {
                    let mut ids: Vec<usize> = Vec::new();
                    ids.push(owner);
                    assert(ids@ =~= seq![owner]);
                    ids
                },
                None => {
                    self.lock_owner = 0;
                    let ids: Vec<usize> = Vec::new();
                    assert(ids@ =~= Seq::<usize>::empty());
                    ids
                },
            }
        }
    }
}

/// Each running handle is one of the handles.
proof fn lemma_running_from(es: Seq<Emitter>, k: int)
    requires
        0 <= k < running(es).len(),
    ensures
        exists|m: int| 0 <= m < es.len() && es[m] == running(es)[k],
    decreases es.len(),
{
    reveal(Seq::filter);
    let rest = es.drop_last();
    let fr = running(rest);
    if es.last().is_running && k == fr.len() {
        assert(running(es)[k] == es.last());
        assert(es[es.len() - 1] == es.last());
    } else {
        assert(k < fr.len());
        assert(running(es)[k] == fr[k]);
        lemma_running_from(rest, k);
        let m = choose|m: int| 0 <= m < rest.len() && rest[m] == fr[k];
        assert(es[m] == rest[m]);
    }
}

/// Keeping some of the handles keeps their ids distinct.
proof fn lemma_filter_unique(es: Seq<Emitter>)
    requires
        ids_unique(es),
    ensures
        ids_unique(running(es)),
    decreases es.len(),
{
    reveal(Seq::filter);
    if es.len() > 0 {
        let rest = es.drop_last();
        assert(ids_unique(rest)) by {
            assert forall|i: int, j: int| 0 <= i < rest.len() && 0 <= j < rest.len() && i != j
                implies rest[i].id != rest[j].id by {
                assert(es[i] == rest[i] && es[j] == rest[j]);
            }
        }
        lemma_filter_unique(rest);
        let fr = running(rest);
        if es.last().is_running {
            assert(running(es) == fr.push(es.last()));
            assert forall|k: int| 0 <= k < fr.len() implies #[trigger] fr[k].id != es.last().id by {
                lemma_running_from(rest, k);
                let m = choose|m: int| 0 <= m < rest.len() && rest[m] == fr[k];
                assert(es[m] == rest[m]);
                assert(es[es.len() - 1] == es.last());
                assert(es[m].id != es[es.len() - 1].id);
            }
        } else {
            assert(running(es) == fr);
        }
    }
}

impl Dispatch {
    /// Registers a new handle `id`, receiving and not suspended. Returns
    /// `false`, changing nothing, where `id` is 0 or already taken.
    pub fn register(&mut self, id: usize) -> (ok: bool)
        requires
            old(self).wf(),
        ensures
            final(self).wf(),
            final(self).store == old(self).store,
            final(self).lock_owner == old(self).lock_owner,
            ok == (id != 0 && find(old(self).emitters@, id) is None),
            ok ==> final(self).emitters@ == old(self).emitters@.push(Emitter { id, is_suspend: false, is_running: true }),
            !ok ==> final(self).emitters@ == old(self).emitters@,
    {
        if id == 0 || self.position(id).is_some() {
            return false;
        }
        self.emitters.push(Emitter { id, is_suspend: false, is_running: true });
        assert(ids_unique(self.emitters@)) by {
            assert forall|a: int, b: int|
                0 <= a < self.emitters@.len() && 0 <= b < self.emitters@.len() && a != b implies
                self.emitters@[a].id != self.emitters@[b].id by {
                if a < old(self).emitters@.len() && b < old(self).emitters@.len() {
                    assert(old(self).emitters@[a].id != old(self).emitters@[b].id);
                } else if a < old(self).emitters@.len() {
                    assert(old(self).emitters@[a].id != id);
                } else if b < old(self).emitters@.len() {
                    assert(old(self).emitters@[b].id != id);
                }
            }
        }
        true
    }

    /// The current screen takes the terminal's new size `w` by `h` (where
    /// it fits; see `Store::sync_size`).
    pub fn resized(&mut self, w: i16, h: i16)
        requires
            old(self).wf(),
        ensures
            final(self).wf(),
            final(self).lock_owner == old(self).lock_owner,
            final(self).emitters == old(self).emitters,
            resized(old(self).store, final(self).store, w, h),
    {
        if size_fits(w, h) {
            self.store.sync_size(w, h);
        }
    }

    /// What puts the terminal back as it was when the dispatcher stops:
    /// main screen, cursor shown, starting mode, no mouse reports.
    pub fn closing(&self) -> (outs: Vec<Output>)
        ensures
            out_views(outs@) == seq![
                OutputView::PrintFlush("\x1B[?1049l"@),
                OutputView::Print("\x1B[?25h"@),
                OutputView::Cook,
                OutputView::Print("\x1B[?1006l\x1B[?1015l\x1B[?1002l\x1B[?1000l"@),
            ],
    {
        let mut outs = one(Output::PrintFlush(actions::disable_alt()));
        push_out(&mut outs, Output::Print(actions::show_cursor()));
        push_out(&mut outs, Output::Cook);
        push_out(&mut outs, Output::Print(actions::disable_mouse()));
        assert(out_views(outs@) =~= seq![
            OutputView::PrintFlush("\x1B[?1049l"@),
            OutputView::Print("\x1B[?25h"@),
            OutputView::Cook,
            OutputView::Print("\x1B[?1006l\x1B[?1015l\x1B[?1002l\x1B[?1000l"@),
        ]);
        outs
    }
}

} // verus!
