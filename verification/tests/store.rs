use tuitty::enums::{Clear, Color, Style};
use tuitty::store::screens::{Screen, Store};

#[test]
fn store_starts_with_one_screen() {
    let store = Store::new(10, 4);
    assert_eq!(store.id(), 0);
    assert!(store.screen_exists(0));
    assert!(!store.screen_exists(1));
    assert_eq!(store.size(), (10, 4));
    assert_eq!(store.coord(), (0, 0));
    assert!(!store.is_raw());
    assert!(store.is_cursor());
    assert!(!store.is_mouse());
}

#[test]
fn screens_keep_their_own_modes() {
    let mut store = Store::new(10, 4);
    store.sync_raw(true);
    store.new_screen(5, 2);
    assert_eq!(store.id(), 1);
    assert!(!store.is_raw());
    assert_eq!(store.size(), (5, 2));
    store.sync_mouse(true);
    store.sync_cursor(false);
    store.set(0);
    assert!(store.is_raw());
    assert!(!store.is_mouse());
    store.set(7);
    assert_eq!(store.id(), 0);
    store.set(1);
    assert!(store.is_mouse());
    assert!(!store.is_cursor());
}

#[test]
fn moves_stop_at_the_edges() {
    let mut store = Store::new(10, 4);
    store.sync_goto(3, 2);
    assert_eq!(store.coord(), (3, 2));
    store.sync_left(5);
    assert_eq!(store.coord(), (0, 2));
    store.sync_right(4);
    assert_eq!(store.coord(), (4, 2));
    store.sync_right(40);
    assert_eq!(store.coord(), (9, 2));
    store.sync_up(-1);
    assert_eq!(store.coord(), (9, 3));
    store.sync_down(3);
    assert_eq!(store.coord(), (9, 3));
    store.sync_up(9);
    assert_eq!(store.coord(), (9, 0));
    store.sync_goto(-2, -1);
    assert_eq!(store.coord(), (2, 1));
}

#[test]
fn writing_and_rendering() {
    let mut store = Store::new(10, 2);
    assert!(store.sync_content("hi"));
    assert_eq!(store.render(), "hi");
    assert_eq!(store.render(), "");
    store.sync_goto(0, 0);
    assert_eq!(store.getch(), "h");
    assert_eq!(store.contents(), format!("hi{}", " ".repeat(18)));
    store.sync_goto(9, 1);
    assert!(!store.sync_content("ab"));
    assert_eq!(store.coord(), (9, 1));
}

#[test]
fn marks_styles_tabs_and_sizes() {
    let mut store = Store::new(10, 4);
    store.sync_marker(5, 1);
    store.sync_goto(1, 1);
    store.jump();
    assert_eq!(store.coord(), (5, 1));
    store.jump();
    assert_eq!(store.coord(), (1, 1));
    store.sync_style(Style::Bg(Color::Blue));
    store.sync_styles(Color::Red, Color::Green, 0);
    store.sync_tab_size(8);
    store.sync_goto(0, 0);
    assert!(store.sync_content("\tx"));
    assert_eq!(store.render(), "\x1B[8Cx");
    store.sync_size(4, 2);
    assert_eq!(store.size(), (4, 2));
    assert_eq!(store.coord(), (3, 1));
    store.sync_clear(Clear::All);
    assert_eq!(store.coord(), (0, 0));
}

#[test]
fn fresh_screen() {
    let s = Screen::new(3, 3);
    assert!(!s.is_raw_enabled);
    assert!(!s.is_mouse_enabled);
    assert!(s.is_cursor_visible);
    assert_eq!(s.buffer.size(), (3, 3));
}
