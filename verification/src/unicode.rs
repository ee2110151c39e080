//! Character widths and grapheme clusters, from the `unicode-width` and
//! `unicode-segmentation` crates.

use vstd::prelude::*;
use unicode_segmentation::UnicodeSegmentation;
use unicode_width::UnicodeWidthChar;

verus! {

/// The number of columns that `unicode_width::UnicodeWidthChar::width`
/// gives a character (`None` for control characters).
pub uninterp spec fn display_width(c: char) -> Option<usize>;

/// `UnicodeWidthChar::width` (unicode-width): the displayed width of `c`
/// in columns (ambiguous-width characters count as narrow), or `None` when
/// `c` is a control character. Stated beyond the name, as the crate's
/// source shows it: `None` exactly for U+0000 to U+001F and U+007F to
/// U+009F, width 1 for the printable ASCII characters, and never more than
/// 3 columns. Which width each other character has is left to the name.
#[verifier::external_body]
pub(crate) fn char_width(c: char) -> (res: Option<usize>)
    ensures
        res == display_width(c),
        res is None <==> ((c as u32) < 0x20 || (0x7F <= (c as u32) && (c as u32) < 0xA0)),
        (0x20 <= (c as u32) && (c as u32) < 0x7F) ==> res == Some(1usize),
        res matches Some(w) ==> w <= 3,
{
    UnicodeWidthChar::width(c)
}

/// The extended grapheme clusters of a string, in order, as
/// `unicode_segmentation::UnicodeSegmentation::graphemes(s, true)` yields
/// them.
pub uninterp spec fn extended_graphemes(s: Seq<char>) -> Seq<Seq<char>>;

/// The characters of each grapheme cluster.
pub open spec fn cluster_views(gs: Seq<Vec<char>>) -> Seq<Seq<char>> {
    gs.map_values(|g: Vec<char>| g@)
}

/// `UnicodeSegmentation::graphemes(s, true)` (unicode-segmentation): the
/// extended grapheme clusters of `s`. Stated beyond the name, as the crate's
/// source shows it (each cluster is the slice between two consecutive
/// boundaries, from the start of the string to its end): no cluster is
/// empty and the clusters, joined, give `s` back. Where the boundaries fall
/// is left to the name.
#[verifier::external_body]
pub(crate) fn graphemes(s: &str) -> (res: Vec<Vec<char>>)
    ensures
        cluster_views(res@) == extended_graphemes(s@),
        forall|i: int| 0 <= i < res@.len() ==> #[trigger] res@[i]@.len() > 0,
        cluster_views(res@).flatten() == s@,
{
    s.graphemes(true).map(|g| g.chars().collect()).collect()
}

/// The number of bytes of the UTF-8 encoding of `c` (what `char::len_utf8`
/// gives).
pub open spec fn utf8_len(c: char) -> nat {
    if (c as u32) < 0x80 {
        1
    } else if (c as u32) < 0x800 {
        2
    } else if (c as u32) < 0x10000 {
        3
    } else {
        4
    }
}

/// The number of bytes of the UTF-8 encoding of `c`.
pub fn len_utf8(c: char) -> (res: usize)
    ensures
        res == utf8_len(c),
{
    let v = c as u32;
    if v < 0x80 {
        1
    } else if v < 0x800 {
        2
    } else if v < 0x10000 {
        3
    } else {
        4
    }
}

/// The width of a string: the sum of the widths of its characters, a
/// control character counting 0.
pub open spec fn text_width(s: Seq<char>) -> int
    decreases s.len(),
{
    if s.len() == 0 {
        0
    } else {
        text_width(s.drop_last()) + match display_width(s.last()) {
            Some(w) => w as int,
            None => 0,
        }
    }
}

/// The width of a string in columns: the sum of the widths of its
/// characters, a control character counting 0.
pub fn str_width(s: &str) -> (res: usize)
    requires
        s@.len() <= usize::MAX / 3,
    ensures
        res == text_width(s@),
{
    let n = s.unicode_len();
    let mut total: usize = 0;
    let mut i: usize = 0;
    while i < n
        invariant
            n == s@.len(),
            i <= n,
            n <= usize::MAX / 3,
            total == text_width(s@.take(i as int)),
            total <= 3 * i,
        decreases n - i,
    {
        let c = s.get_char(i);
        let w: usize = match char_width(c) {
            Some(x) => x,
            None => 0,
        };
        proof {
            let t = s@.take(i as int + 1);
            assert(t.drop_last() =~= s@.take(i as int));
            assert(t.last() == s@[i as int]);
        }
        total = total + w;
        i += 1;
    }
    assert(s@.take(n as int) =~= s@);
    total
}

} // verus!
