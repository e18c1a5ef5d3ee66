use bringup::vga::{Color, ColorCode, VgaChar, Writer, HEIGHT, WIDTH};
use volatile::Volatile;

fn screen(cell: u16) -> [[Volatile<u16>; 80]; 25] {
    core::array::from_fn(|_| core::array::from_fn(|_| Volatile::new(cell)))
}

fn row_text(writer: &Writer, row: usize) -> String {
    (0..WIDTH).map(|col| writer.char_at(row, col).char as char).collect()
}

const YELLOW: ColorCode = ColorCode(0x0e);

#[test]
fn grid_size() {
    assert_eq!(WIDTH, 80);
    assert_eq!(HEIGHT, 25);
}

#[test]
fn color_code_packs_background_above_foreground() {
    assert_eq!(ColorCode::new(Color::Yellow, Color::Black), ColorCode(0x0e));
    assert_eq!(ColorCode::new(Color::White, Color::Blue), ColorCode(0x1f));
    assert_eq!(ColorCode::new(Color::Black, Color::White), ColorCode(0xf0));
    assert_eq!(ColorCode::new(Color::LightGray, Color::DarkGray), ColorCode(0x87));
}

#[test]
fn color_numbers() {
    let all = [
        Color::Black,
        Color::Blue,
        Color::Green,
        Color::Cyan,
        Color::Red,
        Color::Magenta,
        Color::Brown,
        Color::LightGray,
        Color::DarkGray,
        Color::LightBlue,
        Color::LightGreen,
        Color::LightCyan,
        Color::LightRed,
        Color::Pink,
        Color::Yellow,
        Color::White,
    ];
    for (number, color) in all.iter().enumerate() {
        assert_eq!(color.code() as usize, number);
    }
}

#[test]
fn cell_packs_colours_above_character() {
    let shown = VgaChar { char: b'A', color_code: YELLOW };
    assert_eq!(shown.encode(), 0x0e41);
    assert_eq!(VgaChar::decode(0x0e41), shown);
    assert_eq!(VgaChar { char: 0xff, color_code: ColorCode(0) }.encode(), 0x00ff);
    assert_eq!(VgaChar { char: 0, color_code: ColorCode(0xff) }.encode(), 0xff00);
    assert_eq!(VgaChar::decode(0x1f20), VgaChar { char: b' ', color_code: ColorCode(0x1f) });
}

#[test]
fn written_char_lands_on_bottom_row() {
    let mut cells = screen(0);
    let mut writer = Writer { buf: &mut cells, col: 0, color_code: YELLOW };
    writer.do_write_char(b'A');
    assert_eq!(writer.col, 1);
    assert_eq!(writer.char_at(HEIGHT - 1, 0), VgaChar { char: b'A', color_code: YELLOW });
    assert_eq!(writer.char_at(HEIGHT - 1, 1), VgaChar { char: 0, color_code: ColorCode(0) });
    assert_eq!(writer.char_at(HEIGHT - 2, 0), VgaChar { char: 0, color_code: ColorCode(0) });
    writer.do_write_char(b'b');
    assert_eq!(writer.col, 2);
    assert_eq!(writer.char_at(HEIGHT - 1, 0), VgaChar { char: b'A', color_code: YELLOW });
    assert_eq!(writer.char_at(HEIGHT - 1, 1), VgaChar { char: b'b', color_code: YELLOW });
    assert_eq!(cells[HEIGHT - 1][0].read(), 0x0e41);
    assert_eq!(cells[HEIGHT - 1][1].read(), 0x0e62);
    assert_eq!(cells[HEIGHT - 1][2].read(), 0);
}

#[test]
fn char_at_reads_what_memory_holds() {
    let mut cells = screen(0x0720);
    cells[3][7].write(0x4f58);
    let writer = Writer { buf: &mut cells, col: 0, color_code: YELLOW };
    assert_eq!(writer.char_at(3, 7), VgaChar { char: b'X', color_code: ColorCode(0x4f) });
    assert_eq!(writer.char_at(3, 8), VgaChar { char: b' ', color_code: ColorCode(0x07) });
    assert_eq!(writer.char_at(0, 0), VgaChar { char: b' ', color_code: ColorCode(0x07) });
    assert_eq!(writer.char_at(24, 79), VgaChar { char: b' ', color_code: ColorCode(0x07) });
}

#[test]
fn new_line_moves_rows_up_and_blanks_the_last() {
    let mut cells = screen(0);
    for row in 0..HEIGHT {
        for col in 0..WIDTH {
            cells[row][col].write(((row as u16) << 8) | col as u16);
        }
    }
    let mut writer = Writer { buf: &mut cells, col: 17, color_code: YELLOW };
    writer.new_line();
    assert_eq!(writer.col, 0);
    assert_eq!(writer.color_code, YELLOW);
    for row in 0..HEIGHT - 1 {
        for col in 0..WIDTH {
            assert_eq!(cells[row][col].read(), ((row as u16 + 1) << 8) | col as u16);
        }
    }
    for col in 0..WIDTH {
        assert_eq!(cells[HEIGHT - 1][col].read(), 0x0e20);
    }
}

#[test]
fn line_feed_starts_a_new_line() {
    let mut cells = screen(0x0e20);
    let mut writer = Writer { buf: &mut cells, col: 0, color_code: YELLOW };
    writer.do_write_str("one\ntwo");
    assert_eq!(writer.col, 3);
    assert_eq!(row_text(&writer, HEIGHT - 2).trim_end(), "one");
    assert_eq!(row_text(&writer, HEIGHT - 1).trim_end(), "two");
    assert_eq!(row_text(&writer, HEIGHT - 3).trim_end(), "");
    writer.do_write_char(b'\n');
    assert_eq!(writer.col, 0);
    assert_eq!(row_text(&writer, HEIGHT - 3).trim_end(), "one");
    assert_eq!(row_text(&writer, HEIGHT - 2).trim_end(), "two");
    assert_eq!(row_text(&writer, HEIGHT - 1).trim_end(), "");
}

#[test]
fn full_row_wraps_on_the_next_char() {
    let mut cells = screen(0x0e20);
    let mut writer = Writer { buf: &mut cells, col: 0, color_code: YELLOW };
    let line: String = (0..80).map(|i| (b'a' + (i % 26) as u8) as char).collect();
    writer.do_write_str(&line);
    // the row is full, and nothing has moved yet
    assert_eq!(writer.col, 80);
    assert_eq!(row_text(&writer, HEIGHT - 1), line);
    assert_eq!(row_text(&writer, HEIGHT - 2).trim_end(), "");
    writer.do_write_char(b'!');
    assert_eq!(writer.col, 1);
    assert_eq!(row_text(&writer, HEIGHT - 2), line);
    assert_eq!(row_text(&writer, HEIGHT - 1).trim_end(), "!");
}

#[test]
fn cursor_past_the_row_wraps_too() {
    let mut cells = screen(0x0e20);
    cells[HEIGHT - 1][0].write(0x0e51);
    let mut writer = Writer { buf: &mut cells, col: 200, color_code: YELLOW };
    writer.do_write_char(b'z');
    assert_eq!(writer.col, 1);
    assert_eq!(writer.char_at(HEIGHT - 1, 0).char, b'z');
    assert_eq!(writer.char_at(HEIGHT - 2, 0).char, b'Q');
}

#[test]
fn text_scrolls_off_the_top() {
    let mut cells = screen(0x0e20);
    let mut writer = Writer { buf: &mut cells, col: 0, color_code: YELLOW };
    for i in 0..30 {
        writer.do_write_str(&format!("line {}\n", i));
    }
    assert_eq!(row_text(&writer, 0).trim_end(), "line 6");
    assert_eq!(row_text(&writer, HEIGHT - 2).trim_end(), "line 29");
    assert_eq!(row_text(&writer, HEIGHT - 1).trim_end(), "");
}

#[test]
fn text_is_written_byte_by_byte() {
    let mut cells = screen(0);
    let mut writer = Writer { buf: &mut cells, col: 0, color_code: ColorCode(0x1f) };
    writer.do_write_str("h\u{e9}");
    assert_eq!(writer.col, 3);
    assert_eq!(writer.char_at(HEIGHT - 1, 0), VgaChar { char: b'h', color_code: ColorCode(0x1f) });
    assert_eq!(writer.char_at(HEIGHT - 1, 1), VgaChar { char: 0xc3, color_code: ColorCode(0x1f) });
    assert_eq!(writer.char_at(HEIGHT - 1, 2), VgaChar { char: 0xa9, color_code: ColorCode(0x1f) });
    writer.do_write_str("");
    assert_eq!(writer.col, 3);
}
