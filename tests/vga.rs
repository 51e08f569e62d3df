use methix::vga::Writer;
use methix::{Color, ColorCode, ScreenChar, BUFFER_HEIGHT, BUFFER_WIDTH};

fn row_text(w: &Writer, row: usize) -> String {
    (0..BUFFER_WIDTH).map(|c| w.char_at(row, c).ascii_char as char).collect()
}

fn padded(s: &str) -> String {
    format!("{:<80}", s)
}

fn white_on_black() -> ColorCode {
    ColorCode::new(Color::White, Color::Black)
}

#[test]
fn color_code_packs_background_high_foreground_low() {
    assert_eq!(ColorCode::new(Color::Yellow, Color::Black).value(), 0x0e);
    assert_eq!(ColorCode::new(Color::White, Color::Blue).value(), 0x1f);
    assert_eq!(ColorCode::new(Color::Black, Color::White).value(), 0xf0);
    assert_eq!(ColorCode::new(Color::LightGreen, Color::Red).value(), 0x4a);
}

#[test]
fn color_codes_follow_palette_order() {
    assert_eq!(Color::Black.code(), 0);
    assert_eq!(Color::Brown.code(), 6);
    assert_eq!(Color::DarkGray.code(), 8);
    assert_eq!(Color::Pink.code(), 13);
    assert_eq!(Color::White.code(), 15);
}

#[test]
fn new_writer_starts_blank_at_origin() {
    let w = Writer::new();
    assert_eq!(w.cursor_row(), 0);
    assert_eq!(w.cursor_column(), 0);
    assert_eq!(w.color_code(), white_on_black());
    for r in 0..BUFFER_HEIGHT {
        for c in 0..BUFFER_WIDTH {
            assert_eq!(w.char_at(r, c), ScreenChar { ascii_char: b' ', color_code: white_on_black() });
        }
    }
}

#[test]
fn two_letters_and_newline() {
    let mut w = Writer::new();
    w.write("AB\n");
    assert_eq!(w.char_at(0, 0).ascii_char, b'A');
    assert_eq!(w.char_at(0, 1).ascii_char, b'B');
    assert_eq!(w.char_at(0, 2).ascii_char, b' ');
    assert_eq!((w.cursor_row(), w.cursor_column()), (1, 0));
}

#[test]
fn eighty_letters_wrap_to_next_row() {
    let mut w = Writer::new();
    w.write(&"X".repeat(80));
    assert_eq!((w.cursor_row(), w.cursor_column()), (1, 0));
    assert_eq!(row_text(&w, 0), "X".repeat(80));
    assert_eq!(row_text(&w, 1), padded(""));
}

#[test]
fn seventy_nine_letters_do_not_wrap() {
    let mut w = Writer::new();
    w.write(&"Y".repeat(79));
    assert_eq!((w.cursor_row(), w.cursor_column()), (0, 79));
}

#[test]
fn text_reads_back_in_order_with_wrapping() {
    let mut w = Writer::new();
    let long: String = (0..100).map(|i| (b'a' + (i % 26) as u8) as char).collect();
    w.write("Hello\nWorld\n");
    w.write(&long);
    assert_eq!(row_text(&w, 0), padded("Hello"));
    assert_eq!(row_text(&w, 1), padded("World"));
    assert_eq!(row_text(&w, 2), long[..80].to_string());
    assert_eq!(row_text(&w, 3), padded(&long[80..]));
    assert_eq!((w.cursor_row(), w.cursor_column()), (3, 20));
}

#[test]
fn control_byte_renders_as_placeholder() {
    let mut w = Writer::new();
    w.write("a\u{7}b\tc\u{8}");
    assert_eq!(w.char_at(0, 0).ascii_char, b'a');
    assert_eq!(w.char_at(0, 1).ascii_char, 0xfe);
    assert_eq!(w.char_at(0, 2).ascii_char, b'b');
    assert_eq!(w.char_at(0, 3).ascii_char, 0xfe);
    assert_eq!(w.char_at(0, 4).ascii_char, b'c');
    assert_eq!(w.char_at(0, 5).ascii_char, 0xfe);
    assert_eq!(w.cursor_column(), 6);
}

#[test]
fn non_ascii_bytes_render_as_placeholders() {
    let mut w = Writer::new();
    w.write("\u{e9}!");
    assert_eq!(w.char_at(0, 0).ascii_char, 0xfe);
    assert_eq!(w.char_at(0, 1).ascii_char, 0xfe);
    assert_eq!(w.char_at(0, 2).ascii_char, b'!');
    assert_eq!(w.cursor_column(), 3);
}

#[test]
fn delete_byte_renders_as_placeholder() {
    let mut w = Writer::new();
    w.write("\u{7f}");
    assert_eq!(w.char_at(0, 0).ascii_char, 0xfe);
}

#[test]
fn backspace_within_row_blanks_previous_cell() {
    let mut w = Writer::new();
    w.write("abc");
    w.set_color(ColorCode::new(Color::Red, Color::Green));
    w.write_byte(8);
    assert_eq!((w.cursor_row(), w.cursor_column()), (0, 2));
    assert_eq!(
        w.char_at(0, 2),
        ScreenChar { ascii_char: b' ', color_code: ColorCode::new(Color::Red, Color::Green) }
    );
    assert_eq!(w.char_at(0, 1).ascii_char, b'b');
}

#[test]
fn backspace_at_row_start_goes_to_previous_row_end() {
    let mut w = Writer::new();
    w.write(&"Z".repeat(80));
    assert_eq!((w.cursor_row(), w.cursor_column()), (1, 0));
    w.write_byte(8);
    assert_eq!((w.cursor_row(), w.cursor_column()), (0, 79));
    assert_eq!(w.char_at(0, 79).ascii_char, b' ');
    assert_eq!(w.char_at(0, 78).ascii_char, b'Z');
}

#[test]
fn backspace_at_origin_does_nothing() {
    let mut w = Writer::new();
    w.write_byte(8);
    assert_eq!((w.cursor_row(), w.cursor_column()), (0, 0));
    assert_eq!(row_text(&w, 0), padded(""));
}

#[test]
fn newlines_past_last_row_scroll_up() {
    let mut w = Writer::new();
    w.write("top\nsecond\n");
    for _ in 0..22 {
        w.write("\n");
    }
    assert_eq!((w.cursor_row(), w.cursor_column()), (24, 0));
    assert_eq!(row_text(&w, 0), padded("top"));
    w.write("last");
    w.set_color(ColorCode::new(Color::Cyan, Color::Magenta));
    w.write("\n");
    assert_eq!((w.cursor_row(), w.cursor_column()), (24, 0));
    assert_eq!(row_text(&w, 0), padded("second"));
    assert_eq!(row_text(&w, 23), padded("last"));
    for c in 0..BUFFER_WIDTH {
        assert_eq!(
            w.char_at(24, c),
            ScreenChar { ascii_char: b' ', color_code: ColorCode::new(Color::Cyan, Color::Magenta) }
        );
    }
}

#[test]
fn full_row_on_last_row_scrolls_and_wraps() {
    let mut w = Writer::new();
    for _ in 0..24 {
        w.write("\n");
    }
    w.write(&"Q".repeat(80));
    assert_eq!((w.cursor_row(), w.cursor_column()), (24, 0));
    assert_eq!(row_text(&w, 23), "Q".repeat(80));
    assert_eq!(row_text(&w, 24), padded(""));
}

#[test]
fn set_color_applies_only_to_later_cells() {
    let mut w = Writer::new();
    w.write("a");
    let yellow = ColorCode::new(Color::Yellow, Color::Black);
    w.set_color(yellow);
    assert_eq!(w.color_code(), yellow);
    assert_eq!(w.char_at(0, 0).color_code, white_on_black());
    w.write("b");
    assert_eq!(w.char_at(0, 0), ScreenChar { ascii_char: b'a', color_code: white_on_black() });
    assert_eq!(w.char_at(0, 1), ScreenChar { ascii_char: b'b', color_code: yellow });
    assert_eq!(w.char_at(0, 2).color_code, white_on_black());
}

#[test]
fn fault_message_is_rendered() {
    let mut w = Writer::new();
    w.write("Kernel Panic: boom\n");
    assert!(row_text(&w, 0).contains("Kernel Panic: boom"));
    assert_eq!((w.cursor_row(), w.cursor_column()), (1, 0));
}

#[test]
fn many_newlines_scroll_once_per_row_past_the_end() {
    let mut w = Writer::new();
    for r in 0..BUFFER_HEIGHT {
        w.write(&format!("row{}", r));
        if r + 1 < BUFFER_HEIGHT {
            w.write("\n");
        }
    }
    assert_eq!((w.cursor_row(), w.cursor_column()), (24, 5));
    w.write("\n\n\n");
    assert_eq!((w.cursor_row(), w.cursor_column()), (24, 0));
    assert_eq!(row_text(&w, 0), padded("row3"));
    assert_eq!(row_text(&w, 21), padded("row24"));
    assert_eq!(row_text(&w, 22), padded(""));
    assert_eq!(row_text(&w, 23), padded(""));
    assert_eq!(row_text(&w, 24), padded(""));
}
