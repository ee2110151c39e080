use tuitty::ansi::{cursor, screen, style, mouse};
use tuitty::enums::{Clear, Effect, Style};
use tuitty::enums::Color::{
    Black, Blue, Cyan, DarkBlue, DarkCyan, DarkGreen, DarkGrey, DarkMagenta, DarkRed, DarkYellow,
    Green, Grey, Magenta, Red, Reset, White, Yellow,
};

#[test]
fn test_ansi_cursor() {
    let goto_string = cursor::goto(16, 75);
    assert_eq!(goto_string, "\x1B[76;17H");

    let move_up_string = cursor::move_up(8);
    assert_eq!(move_up_string, "\x1B[8A");

    let move_down_string = cursor::move_down(8);
    assert_eq!(move_down_string, "\x1B[8B");

    let move_left_string = cursor::move_left(8);
    assert_eq!(move_left_string, "\x1B[8D");

    let move_right_string = cursor::move_right(8);
    assert_eq!(move_right_string, "\x1B[8C");
}

#[test]
fn test_ansi_screen() {
    let resize_string = screen::resize(40, 90);
    assert_eq!(resize_string, "\x1B[8;90;40t");

    let enable_alt_string = screen::enable_alt();
    assert_eq!(enable_alt_string, "\x1B[?1049h");

    let disable_alt_string = screen::disable_alt();
    assert_eq!(disable_alt_string, "\x1B[?1049l");
}

#[test]
fn test_ansi_style() {
    let reset_string = style::reset();
    assert_eq!(reset_string, "\x1B[0m");

    let colors = [
        Black, DarkGrey,
        Red, DarkRed,
        Green, DarkGreen,
        Yellow, DarkYellow,
        Blue, DarkBlue,
        Magenta, DarkMagenta,
        Cyan, DarkCyan,
        White, Grey,
        Reset,
    ];
    let fg_color_strings = [
        "\x1B[38;5;0m", "\x1B[38;5;8m",
        "\x1B[38;5;9m", "\x1B[38;5;1m",
        "\x1B[38;5;10m", "\x1B[38;5;2m",
        "\x1B[38;5;11m", "\x1B[38;5;3m",
        "\x1B[38;5;12m", "\x1B[38;5;4m",
        "\x1B[38;5;13m", "\x1B[38;5;5m",
        "\x1B[38;5;14m", "\x1B[38;5;6m",
        "\x1B[38;5;15m", "\x1B[38;5;7m",
        "",
    ];
    let bg_color_strings = [
        "\x1B[48;5;0m", "\x1B[48;5;8m",
        "\x1B[48;5;9m", "\x1B[48;5;1m",
        "\x1B[48;5;10m", "\x1B[48;5;2m",
        "\x1B[48;5;11m", "\x1B[48;5;3m",
        "\x1B[48;5;12m", "\x1B[48;5;4m",
        "\x1B[48;5;13m", "\x1B[48;5;5m",
        "\x1B[48;5;14m", "\x1B[48;5;6m",
        "\x1B[48;5;15m", "\x1B[48;5;7m",
        "",
    ];
    for (i, c) in colors.iter().enumerate() {
        let fg_string = style::set_style(Style::Fg(*c));
        if *c != Reset {
            assert_eq!(fg_string, fg_color_strings[i]);
        } else {
            assert_eq!(fg_string, "\x1B[39m")
        }
    }
    for (i, c) in colors.iter().enumerate() {
        let bg_string = style::set_style(Style::Bg(*c));
        if *c != Reset {
            assert_eq!(bg_string, bg_color_strings[i]);
        } else {
            assert_eq!(bg_string, "\x1B[49m")
        }
    }

    let effect = Effect::Dim.bits();
    let fx_string = style::set_style(Style::Fx(effect));
    assert_eq!(fx_string, "\x1B[2m");

    let effects = Effect::Bold.bits() | Effect::Underline.bits() | Effect::Hide.bits();
    let fxs_string = style::set_style(Style::Fx(effects));
    assert_eq!(fxs_string, "\x1B[1m\x1B[4m\x1B[8m");

    let style_string = style::set_styles(Yellow, DarkMagenta, effects);
    assert_eq!(style_string, "\x1B[38;5;11m\x1B[48;5;5m\x1B[1m\x1B[4m\x1B[8m");
}

#[test]
fn clear_sequences() {
    assert_eq!(screen::clear(Clear::All), "\x1B[2J");
    assert_eq!(screen::clear(Clear::CursorDn), "\x1B[J");
    assert_eq!(screen::clear(Clear::CursorUp), "\x1B[1J");
    assert_eq!(screen::clear(Clear::CurrentLn), "\x1B[2K");
    assert_eq!(screen::clear(Clear::NewLn), "\x1B[K");
}

#[test]
fn cursor_visibility_and_query() {
    assert_eq!(cursor::hide_cursor(), "\x1B[?25l");
    assert_eq!(cursor::show_cursor(), "\x1B[?25h");
    assert_eq!(cursor::pos(), "\x1B[6n");
}

#[test]
fn mouse_modes() {
    assert_eq!(
        mouse::enable_mouse_mode(),
        "\x1B[?1000h\x1B[?1002h\x1B[?1015h\x1B[?1006h"
    );
    assert_eq!(
        mouse::disable_mouse_mode(),
        "\x1B[?1006l\x1B[?1015l\x1B[?1002l\x1B[?1000l"
    );
}
