//! Escape sequences that turn mouse reporting on and off.

use vstd::prelude::*;

verus! {

/// The sequence that turns on mouse reporting (X10, button-event, urxvt and
/// SGR modes).
pub fn enable_mouse_mode() -> (res: String)
    ensures
        res@ == "\x1B[?1000h\x1B[?1002h\x1B[?1015h\x1B[?1006h"@,
{
    String::from_str("\x1B[?1000h\x1B[?1002h\x1B[?1015h\x1B[?1006h")
}

/// The sequence that turns mouse reporting off, in the reverse order.
pub fn disable_mouse_mode() -> (res: String)
    ensures
        res@ == "\x1B[?1006l\x1B[?1015l\x1B[?1002l\x1B[?1000l"@,
{
    String::from_str("\x1B[?1006l\x1B[?1015l\x1B[?1002l\x1B[?1000l")
}

} // verus!
