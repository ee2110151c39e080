use tuitty::cache::charinfo::{CharInfo, CharInfoCache};
use tuitty::cache::{CellInfoCache, FirstLast, Metadata, Rune, ScreenCache};
use tuitty::enums::{Clear, Color, Effect, Style};
use tuitty::unicode::str_width;

fn rune_names(cache: &CellInfoCache, n: usize) -> Vec<String> {
    let mut names = Vec::new();
    for i in 0..n {
        match &cache.buffer[i] {
            Some(info) => match &info.rune {
                Rune::Single(c) => names.push(c.to_string()),
                Rune::Double(c) => names.push(c.to_string()),
                Rune::Compound(v) => names.push(v.iter().collect()),
                Rune::Null => names.push(String::from("_")),
            },
            None => names.push(String::from("None")),
        }
    }
    names
}

#[test]
fn test_ansi_cache() {
    let mut cache = CellInfoCache::new(80, 24);
    let content = "the\x00 \x1B[38;5;9m빨리\x1B[39m 褐色 🦊 jumps over the 大懒 🐕.";
    let content_width = str_width(content);

    assert_eq!(content_width, 52);

    let tuitty_width = "the".len() + "".len()
        + " ^[38;5;9m".len() + 4
        + "^[39m ".len() + 4
        + " ".len() + 2
        + " jumps over the ".len() + 4
        + " ".len() + 2 + ".".len();

    assert_eq!(tuitty_width, 54);

    let (test_w, test_h) = (40, 40);
    cache._sync_size(test_w, test_h);
    assert_eq!(cache._screen_size(), (test_w, test_h));

    let test_len = (test_w * test_h) as usize;
    assert_eq!(cache.buffer.len(), test_len);

    let (test_col, test_row) = (20, 15);
    cache._sync_pos(test_col, test_row);
    assert_eq!(cache._screen_pos(), (test_col, test_row));

    let start = ((test_row * test_w) + test_col) as usize;
    cache._cache_content(content);

    let mut count_none_until = 0;
    for cell in &cache.buffer {
        match cell {
            Some(_) => break,
            None => count_none_until += 1,
        }
    }
    assert_eq!(count_none_until, start);
    assert!(cache.buffer[tuitty_width].is_none());
    assert_eq!(
        ((start + tuitty_width) as i16 % test_w, (start + tuitty_width) as i16 / test_w),
        cache._screen_pos()
    );

    cache._sync_tab(8);
    assert_eq!(cache._tab_width(), 8);
}

#[test]
fn test_cache_content_ansii() {
    let ascii = "AA";
    let mut cache = CellInfoCache::new(80, 24);
    cache._cache_content(ascii);
    assert_eq!(rune_names(&cache, 5), vec!["A", "A", "None", "None", "None"]);
    assert_eq!(cache._screen_pos(), (2, 0));
}

#[test]
fn test_cache_content_cjk() {
    let cjk = "色A";
    let mut cache = CellInfoCache::new(80, 24);
    cache._cache_content(cjk);
    assert_eq!(rune_names(&cache, 5), vec!["色", "_", "A", "None", "None"]);
    assert_eq!(cache._screen_pos(), (3, 0));
}

#[test]
fn test_cache_content_compound() {
    let compound = "👨‍🚀";
    let mut cache = CellInfoCache::new(80, 24);
    cache._cache_content(compound);
    let names = rune_names(&cache, 15);
    assert_eq!(names[0], "👨\u{200d}🚀");
    assert_eq!(names[1], "_");
    assert_eq!(names[2], "None");
    assert_eq!(cache._screen_pos(), (2, 0));
}

#[test]
fn carriage_return_and_escape_in_cache() {
    let mut cache = CellInfoCache::new(10, 2);
    cache._cache_content("ab\rc\x1B");
    assert_eq!(rune_names(&cache, 3), vec!["c", "^", "None"]);
    assert_eq!(cache._screen_pos(), (2, 0));
}

#[test]
fn cache_scrolls_when_full() {
    let mut cache = CellInfoCache::new(2, 2);
    cache._cache_content("abcd");
    assert_eq!(cache._screen_pos(), (0, 2));
    cache._cache_content("e");
    assert_eq!(rune_names(&cache, 4), vec!["c", "d", "e", "None"]);
    assert_eq!(cache._screen_pos(), (1, 1));
}

#[test]
fn wide_character_past_the_end_is_refused() {
    let mut cache = CellInfoCache::new(2, 1);
    cache._sync_pos(1, 0);
    assert!(!cache.fits_content("色"));
    assert!(!cache.try_cache_content("色"));
    assert_eq!(cache._screen_pos(), (1, 0));
    assert!(cache.try_cache_content("x"));
    assert_eq!(cache._screen_pos(), (0, 1));
}

#[test]
fn cache_moves_and_styles() {
    let mut cache = CellInfoCache::new(10, 5);
    cache._sync_pos(3, 2);
    cache._sync_up(1);
    assert_eq!(cache._screen_pos(), (3, 1));
    cache._sync_up(5);
    assert_eq!(cache._screen_pos(), (3, 0));
    cache._sync_down(2);
    assert_eq!(cache._screen_pos(), (3, 2));
    cache._sync_down(9);
    assert_eq!(cache._screen_pos(), (3, 5));
    cache._sync_pos(3, 2);
    cache._sync_left(2);
    assert_eq!(cache._screen_pos(), (1, 2));
    cache._sync_left(12);
    assert_eq!(cache._screen_pos(), (0, 1));
    cache._sync_right(4);
    assert_eq!(cache._screen_pos(), (4, 1));
    cache._sync_right(27);
    assert_eq!(cache._screen_pos(), (10, 3));
    cache._sync_style(Style::Fg(Color::Red));
    assert_eq!(cache.style, (Color::Red, Color::Reset, Effect::Reset.bits()));
    cache._sync_styles(Color::Blue, Color::Green, Effect::Bold.bits());
    assert_eq!(cache.style, (Color::Blue, Color::Green, Effect::Bold.bits()));
    cache._reset_styles();
    assert_eq!(cache.style, (Color::Reset, Color::Reset, Effect::Reset.bits()));
}

#[test]
fn clearing_the_cache() {
    let mut cache = CellInfoCache::new(3, 2);
    cache._cache_content("abcdef");
    cache._sync_pos(1, 0);
    cache._clear_buffer(Clear::NewLn);
    assert_eq!(rune_names(&cache, 6), vec!["a", "None", "None", "d", "e", "f"]);
    cache._sync_pos(1, 1);
    cache._clear_buffer(Clear::CursorDn);
    assert_eq!(rune_names(&cache, 6), vec!["a", "None", "None", "d", "None", "None"]);
    cache._clear_buffer(Clear::All);
    assert_eq!(rune_names(&cache, 6), vec!["None"; 6]);
}

#[test]
fn flushing_redraws_with_styles() {
    let mut cache = CellInfoCache::new(3, 1);
    cache._sync_style(Style::Fg(Color::Red));
    cache._cache_content("a");
    cache._reset_styles();
    cache._cache_content("\t");
    assert_eq!(cache._flush_buffer(), "\x1B[0m\x1B[38;5;9ma\x1B[0m     ");
}

#[test]
fn first_last_marks_ends() {
    let mut walk = FirstLast::new(vec!['a', 'b', 'c']);
    assert_eq!(walk.next(), Some((true, false, 'a')));
    assert_eq!(walk.next(), Some((false, false, 'b')));
    assert_eq!(walk.next(), Some((false, true, 'c')));
    assert_eq!(walk.next(), None);
}

#[test]
fn fresh_metadata() {
    let meta = Metadata::new(4, 3);
    assert!(!meta.is_raw_enabled);
    assert!(meta.is_cursor_visible);
    assert_eq!(meta.saved_position, (0, 0));
    match &meta.cache {
        ScreenCache::Ansi(c) => {
            assert_eq!(c.buffer.len(), 12);
            assert_eq!(c._tab_width(), 4);
        }
        ScreenCache::Win32(_) => panic!("a terminal cache was expected"),
    }
}

#[test]
fn console_cache_moves_and_resizes() {
    let mut cache = CharInfoCache::new(4, 3);
    assert_eq!(cache.buffer.len(), 12);
    assert!(cache.buffer.iter().all(|c| *c == CharInfo { ch: 0, attributes: 0 }));
    assert_eq!(cache._screen_size(), (4, 3));
    cache._sync_right(5);
    assert_eq!(cache._screen_pos(), (1, 1));
    cache._sync_down(7);
    assert_eq!(cache._screen_pos(), (1, 3));
    cache._sync_up(2);
    assert_eq!(cache._screen_pos(), (1, 1));
    cache._sync_left(6);
    assert_eq!(cache._screen_pos(), (0, 0));
    cache._sync_left(-3);
    assert_eq!(cache._screen_pos(), (0, 0));
    cache._sync_pos(2, 2);
    cache._sync_size(2, 2);
    assert_eq!(cache.buffer.len(), 4);
    assert_eq!(cache._screen_pos(), (2, 2));
    cache._sync_style(Style::Fg(Color::Red));
    assert_eq!(cache.style.0, Color::Red);
    cache._sync_styles(Color::Blue, Color::Green, 1);
    assert_eq!(cache.style, (Color::Blue, Color::Green, 1));
    cache._reset_styles();
    assert_eq!(cache.style, (Color::Reset, Color::Reset, Effect::Reset.bits()));
}

#[test]
fn plain_cache_redraws_its_text() {
    let mut cache = CellInfoCache::new(4, 1);
    cache._cache_content("AB");
    assert_eq!(cache._flush_buffer(), "\x1B[0mAB  ");
    cache._sync_pos(0, 0);
    cache._clear_buffer(Clear::All);
    assert_eq!(cache._flush_buffer(), "\x1B[0m    ");
}

#[test]
fn wide_char_overwrites_cached_cells() {
    let mut cache = CellInfoCache::new(5, 1);
    cache._cache_content("AB");
    cache._sync_pos(0, 0);
    cache._cache_content("色");
    assert_eq!(rune_names(&cache, 3), vec!["色", "_", "None"]);
    assert_eq!(cache._screen_pos(), (2, 0));
    cache._sync_pos(0, 0);
    cache._cache_content("é");
    assert_eq!(rune_names(&cache, 2), vec!["é", "_"]);
    assert_eq!(cache._screen_pos(), (1, 0));
}
