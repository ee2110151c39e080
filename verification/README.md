# tuitty

A terminal library: escape sequences for cursor, screen, style and mouse
control; parsers of the bytes a terminal sends for keys, mouse events and
cursor reports; an in-memory model of each screen that renders only what
changed; and a dispatcher that routes input events to event handles and
carries out their commands.

The library in `src/` is verified with Verus: every public function states
what it returns or changes, and `src/laws.rs` proves what holds across
operations (text written at the cursor reads back, text already shown is not
sent again, writing keeps wide characters whole, a cursor report parses back
to its position, named colors look the same on a console as through escape
sequences, the input lock routes events to its holder, each listening handle
gets each event once, and more).

Layout:

- `src/enums.rs`, `src/text.rs`, `src/unicode.rs` — shared types, numerals,
  character widths and grapheme clusters.
- `src/ansi/`, `src/actions.rs` — the escape sequences of each action.
- `src/input/` — the input parsers (the dispatcher's, the stream readers',
  and the Windows console records').
- `src/store/` — the screen model: cells, cursor, text parsing, screens.
- `src/cache.rs`, `src/cache/` — the per-screen caches used to redraw.
- `src/dispatch.rs` — the dispatcher's decisions, from command to outputs.
- `src/wincon.rs` — the Windows console computations (attributes, moves,
  clear and resize plans).
- `app/` — the Unix side: tty I/O through libc, readers, and the threads
  that run the dispatcher.
- `tests/` — tests of the library.
