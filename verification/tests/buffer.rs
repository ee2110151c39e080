use tuitty::enums::Clear;
use tuitty::store::buffer::Buffer;

fn screen() -> Buffer {
    Buffer::new(80, 24)
}

#[test]
fn test_tabstop() {
    let mut buf = screen();
    buf.goto_coord(15, 0);
    let tabbed = buf.tabstop((15, 0));
    assert_eq!(tabbed, 16);
    buf.goto_index(tabbed);
    assert_eq!(buf.cursor(), 16);
}

#[test]
fn test_ascii_buffer_simple() {
    let mut buf = screen();
    let original_input = "Hello, world!";
    buf.parse(original_input);
    buf.flush();

    let modified_input = "Bella, whale!";
    buf.goto_coord(0, 0);
    buf.parse(modified_input);
    let output = buf.flush();
    assert_eq!(String::from("Bella, whale"), output);
    assert_eq!(buf.cursor(), 12);
    assert_eq!("!", &buf.getch());

    buf.goto_coord(5, 0);
    assert_eq!(",", &buf.getch());

    let consecutive_input = "Hella, wharf!";
    buf.goto_coord(0, 0);
    buf.parse(consecutive_input);
    let output = buf.flush();
    assert_eq!(String::from("H\x1B[0;10Hrf"), output);
}

#[test]
fn test_ascii_buffer_simple_v2() {
    let mut buf = screen();
    let original_input = "-------- a";
    buf.parse(original_input);
    let _ = buf.flush();
    let modified_input = "-------- b";
    buf.goto_index(0);
    buf.parse(modified_input);
    let output = buf.flush();
    assert_eq!("\x1B[0;9Hb", output);
}

#[test]
fn test_cjk_buffer() {
    let mut buf = screen();
    let original_input = "... Hello, 中易隶书, world!";
    buf.parse(original_input);
    buf.flush();
    buf.goto_coord(12, 0);
    assert_eq!("中", buf.getch());
    assert_ne!(buf.cursor(), 12);
    assert_eq!(buf.cursor(), 11);
    let index = buf.cursor() as i16;
    buf.goto_coord(index + 2, 0);
    assert_eq!(buf.cursor(), 13);
    assert_eq!("易", buf.getch());

    let tabbed_input = "\tx";
    buf.parse(tabbed_input);
    let output = buf.flush();
    assert_eq!("\x1B[3Cx", output);
    buf.goto_coord(15, 0);
    assert_eq!(" ", &buf.getch());
    buf.goto_coord(16, 0);
    assert_eq!("x", &buf.getch());

    let modified_input = "o,  中易隶书, wrld!";
    buf.goto_coord(8, 0);
    buf.parse(modified_input);
    let output = buf.flush();
    assert_eq!(String::from("o,  中易隶书, w"), output);
    assert_eq!(buf.cursor(), 23);
    assert_eq!("r", &buf.getch());

    buf.goto_coord(11, 0);
    assert_ne!("中", &buf.getch());
    let index = buf.cursor() as i16;
    assert_eq!(index, 11);
    assert_eq!(" ", &buf.getch());

    buf.goto_coord(index + 1, 0);
    assert_eq!("中", &buf.getch());
    assert_eq!(buf.cursor(), 12);
    buf.goto_coord(13, 0);
    assert_eq!("中", &buf.getch());
    assert_eq!(buf.cursor(), 12);
    buf.goto_coord(14, 0);
    assert_eq!("易", buf.getch());
}

#[test]
fn test_ascii_buffer_complex() {
    let mut buf = screen();
    let original_input = "Hello, world!\n\nH23\towdy, neighbor!";
    buf.parse(original_input);
    buf.flush();
    buf.goto_coord(12, 0);
    assert_eq!("!", &buf.getch());
    buf.goto_coord(13, 2);
    assert_eq!("H", &buf.getch());
    buf.goto_coord(14, 2);
    assert_eq!("2", &buf.getch());
    buf.goto_coord(15, 2);
    assert_eq!("3", &buf.getch());
    buf.goto_coord(20, 2);
    assert_eq!("o", &buf.getch());

    buf.goto_coord(13, 2);
    let modified_input = "B23\tella, nutrition!";
    buf.parse(modified_input);
    let output = buf.flush();
    assert_eq!(String::from("B23\x1B[4Cella, nutrition!"), output);

    buf.goto_coord(26, 2);
    assert_eq!("n", &buf.getch());

    buf.goto_coord(13, 2);
    let repeated_input = "B23\tella, natrition!";
    buf.parse(repeated_input);
    let output = buf.flush();
    assert_ne!(String::from("B23\x1B[4Cella, natrition!"), output);
    assert_eq!(String::from("B23\x1B[4Cella, na"), output);
}

#[test]
fn test_modifier_false_support() {
    let mut buf = screen();
    let original_input = "-------- 👨🏿‍🦰 ----";
    buf.parse(original_input);
    let output = buf.flush();
    assert_ne!(original_input, output);
    assert_eq!("-------- 👨 ----", output);
    buf.goto_index(0);
    let adjusted_input = "-------- 👨🏿‍🦰 ****";
    buf.parse(adjusted_input);
    let output = buf.flush();
    assert_eq!("\x1B[0;12H****", output);
}

#[test]
fn test_modifier_true_support() {
    let mut buf = screen();
    buf.can_modify = true;
    let original_input = "---- 👨🏿‍🦰 ----";
    buf.parse(original_input);
    let output = buf.flush();
    let modified_input = "---- 👨🏿 ----";
    assert_eq!(modified_input, output);
    buf.goto_index(0);
    let adjusted_input = "**** 👨🏿‍🦰 ****";
    buf.parse(adjusted_input);
    let output = buf.flush();
    buf.goto_index(5);
    let chat5 = buf.getch();
    buf.goto_index(6);
    let chat6 = buf.getch();
    assert_eq!(chat5, chat6);
    buf.goto_index(7);
    assert_eq!(" ", buf.getch());
    assert_eq!("****\x1B[0;8H****", output);
}

#[test]
fn test_emoji_support() {
    let mut buf = screen();
    let original_input = "-------- 👨‍👩‍👦 ----";
    buf.parse(original_input);
    let output = buf.flush();
    assert_eq!("-------- 👨 ----", output);
    let adjusted_input = "-------- 👨‍👩‍👦 ****";
    buf.goto_index(0);
    buf.parse(adjusted_input);
    let output = buf.flush();
    assert_eq!("\x1B[0;12H****", output);
    buf.clear(Clear::All);
    buf.can_modify = true;
    let modified_input = "-------- 👨🏽‍👩🏽‍👧🏽 ----";
    buf.parse(modified_input);
    let output = buf.flush();
    assert_eq!("-------- 👨🏽 ----", output);
    let adjusted_input = "-------- 👨🏽‍👩🏽‍👧🏽 ****";
    buf.goto_index(0);
    buf.parse(adjusted_input);
    let output = buf.flush();
    assert_eq!("\x1B[0;12H****", output);
}

#[test]
fn parse_past_the_last_cell_is_refused() {
    let mut buf = Buffer::new(4, 1);
    assert!(buf.try_parse("abcd"));
    let before = buf.flush();
    assert_eq!(before, "abcd");
    buf.goto_index(0);
    assert!(!buf.try_parse("abcde"));
    assert_eq!(buf.flush(), "");
    buf.goto_index(3);
    assert!(!buf.try_parse("中"));
    assert!(buf.fits_text("x"));
}

#[test]
fn clearing_lines_and_regions() {
    let mut buf = Buffer::new(5, 3);
    buf.parse("abcd\r\nefgh\r\nijkl");
    buf.goto_coord(1, 1);
    buf.clear(Clear::NewLn);
    buf.goto_coord(0, 1);
    assert_eq!(buf.getch(), "e");
    buf.goto_coord(1, 1);
    assert_eq!(buf.getch(), " ");
    buf.goto_coord(2, 2);
    buf.clear(Clear::CurrentLn);
    assert_eq!(buf.cursor(), 10);
    assert_eq!(buf.getch(), " ");
    buf.goto_coord(1, 0);
    buf.clear(Clear::CursorUp);
    buf.goto_coord(0, 0);
    assert_eq!(buf.getch(), " ");
    buf.goto_coord(1, 0);
    assert_eq!(buf.getch(), "b");
    buf.clear(Clear::All);
    assert_eq!(buf.cursor(), 0);
    buf.goto_coord(1, 0);
    assert_eq!(buf.getch(), " ");
}

#[test]
fn resize_keeps_cells_by_index() {
    let mut buf = Buffer::new(4, 2);
    buf.parse("abcdefgh");
    buf.resize(3, 2);
    assert_eq!(buf.size(), (3, 2));
    buf.goto_index(5);
    assert_eq!(buf.getch(), "f");
    buf.goto_index(100);
    assert_eq!(buf.cursor(), 5);
    assert_eq!(buf.coord(5), (2, 1));
    assert_eq!(buf.index((-2, 1)), 5);
}

#[test]
fn marks_swap_with_the_cursor() {
    let mut buf = Buffer::new(10, 2);
    buf.savedpos = 7;
    buf.goto_index(3);
    buf.goto_mark();
    assert_eq!(buf.cursor(), 7);
    assert_eq!(buf.savedpos, 3);
}

#[test]
fn written_text_reads_back() {
    let mut buf = Buffer::new(6, 2);
    buf.goto_index(2);
    buf.parse("中");
    buf.goto_index(1);
    buf.parse("ab c");
    for (k, expected) in ["a", "b", " ", "c"].iter().enumerate() {
        buf.goto_index(1 + k);
        assert_eq!(*expected, &buf.getch());
    }
    buf.goto_index(0);
    assert_eq!(" ", &buf.getch());
}

#[test]
fn rewriting_shown_text_sends_nothing() {
    let mut buf = screen();
    buf.goto_coord(3, 1);
    buf.parse("same text");
    assert_eq!(String::from("same text"), buf.flush());
    buf.goto_coord(3, 1);
    buf.parse("same text");
    assert_eq!(String::new(), buf.flush());
    assert_eq!(buf.cursor(), 83);
    buf.goto_coord(3, 1);
    assert_eq!("s", &buf.getch());
}

#[test]
fn writing_keeps_wide_characters_whole() {
    let mut buf = Buffer::new(6, 2);
    buf.parse("中文x");
    // the right half of a wide character settles on its left half
    assert_eq!(buf.goto_index(1), 0);
    buf.parse("abc");
    // the second wide character lost its left half, so its right half was
    // emptied
    for (k, expected) in ["a", "b", "c", " ", "x"].iter().enumerate() {
        buf.goto_index(k);
        assert_eq!(*expected, &buf.getch());
    }
    buf.goto_index(5);
    buf.parse("中");
    assert_eq!(buf.cursor(), 7);
    assert_eq!(buf.goto_index(6), 5);
    assert_eq!("中", &buf.getch());
}

#[test]
fn rewriting_shown_wide_text_sends_nothing() {
    let mut buf = screen();
    buf.goto_coord(2, 3);
    buf.parse("中a🦊b");
    assert_eq!(String::from("中a🦊b"), buf.flush());
    buf.goto_coord(2, 3);
    let start = buf.cursor();
    buf.parse("中a🦊b");
    assert_eq!(String::new(), buf.flush());
    assert_eq!(buf.cursor(), start);
    assert_eq!("中", &buf.getch());
}

#[test]
fn screens_may_fill_an_i16() {
    let mut buf = Buffer::new(181, 181);
    assert_eq!(buf.cells.len(), 181 * 181);
    buf.goto_index(181 * 181 - 1);
    buf.parse("z");
    buf.goto_index(181 * 181 - 1);
    assert_eq!("z", &buf.getch());
    buf.resize(0, 0);
    assert_eq!(buf.cells.len(), 0);
    assert_eq!(buf.size(), (0, 0));
}
