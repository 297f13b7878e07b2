use termio::ansi::{
    disable_ansi, enable_ansi, move_cursor_down, move_cursor_left, move_cursor_right,
    move_cursor_to_column, move_cursor_to_position, move_cursor_to_row, move_cursor_up,
    rgb_color_code_bg, rgb_color_code_fg, set_window_title, ALT_SCREEN_ENTER, ALT_SCREEN_EXIT,
    COLORS, COLORS_BG, COLORS_FG, COLOR_RED_BG, COLOR_RED_FG,
};

#[test]
fn cursor_moves_carry_the_count() {
    assert_eq!(move_cursor_up(12), "\x1b[12A");
    assert_eq!(move_cursor_down(0), "\x1b[0B");
    assert_eq!(move_cursor_right(65535), "\x1b[65535C");
    assert_eq!(move_cursor_left(3), "\x1b[3D");
}

#[test]
fn cursor_targets_are_one_based_on_the_wire() {
    assert_eq!(move_cursor_to_row(0), "\x1b[1d");
    assert_eq!(move_cursor_to_column(7), "\x1b[8G");
    assert_eq!(move_cursor_to_position(2, 4), "\x1b[5;3H");
}

#[test]
fn cursor_targets_saturate_at_the_largest_row() {
    assert_eq!(move_cursor_to_row(65535), "\x1b[65535d");
    assert_eq!(move_cursor_to_column(65535), "\x1b[65535G");
}

#[test]
fn truecolor_codes_name_all_three_channels() {
    assert_eq!(rgb_color_code_fg(255, 0, 16), "\x1b[38;2;255;0;16m");
    assert_eq!(rgb_color_code_bg(1, 2, 3), "\x1b[48;2;1;2;3m");
}

#[test]
fn window_title_is_framed() {
    assert_eq!(set_window_title("hi"), Some("\x1b]0;hi\x1b\\".to_string()));
}

#[test]
fn window_title_length_boundary() {
    let just_fits = "a".repeat(255);
    assert!(set_window_title(&just_fits).is_some());
    let too_long = "a".repeat(256);
    assert_eq!(set_window_title(&too_long), None);
}

#[test]
fn window_title_length_counts_bytes() {
    let title = "é".repeat(128);
    assert_eq!(title.len(), 256);
    assert_eq!(set_window_title(&title), None);
}

#[test]
fn ansi_toggles_never_fail_on_unix() {
    assert!(enable_ansi().is_ok());
    assert!(disable_ansi().is_ok());
}

#[test]
fn screen_constants_are_the_usual_sequences() {
    assert_eq!(ALT_SCREEN_ENTER, "\x1b[?1049h");
    assert_eq!(ALT_SCREEN_EXIT, "\x1b[?1049l");
}

#[test]
fn color_tables_line_up() {
    assert_eq!(COLORS.len(), 9);
    for i in 0..9 {
        assert_eq!(COLORS[i], (COLORS_FG[i], COLORS_BG[i]));
    }
    assert_eq!(COLORS[1], (COLOR_RED_FG, COLOR_RED_BG));
}
