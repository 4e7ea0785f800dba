use gh0st_os::{Buffer, Color, ColorCode, ScreenChar, Writer, BUFFER_HEIGHT, BUFFER_WIDTH};

fn pink_on_black() -> ColorCode {
    ColorCode::new(Color::Pink, Color::Black)
}

fn bottom_row_text(w: &Writer, row: usize, len: usize) -> Vec<u8> {
    (0..len).map(|c| w.read_cell(row, c).ascii_character).collect()
}

#[test]
fn color_ids_match_palette() {
    assert_eq!(Color::Black.id(), 0);
    assert_eq!(Color::Cyan.id(), 3);
    assert_eq!(Color::LightGray.id(), 7);
    assert_eq!(Color::DarkGray.id(), 8);
    assert_eq!(Color::Pink.id(), 13);
    assert_eq!(Color::White.id(), 15);
}

#[test]
fn color_code_packs_nibbles() {
    assert_eq!(pink_on_black().byte(), 0x0d);
    assert_eq!(ColorCode::new(Color::Yellow, Color::Blue).byte(), 0x1e);
    assert_eq!(ColorCode::new(Color::Black, Color::White).byte(), 0xf0);
}

#[test]
fn buffer_read_returns_written_cell() {
    let fill = ScreenChar { ascii_character: b' ', color_code: pink_on_black() };
    let mut b = Buffer::new(fill);
    let c = ScreenChar { ascii_character: b'Z', color_code: ColorCode(0xab) };
    b.write(3, 7, c);
    assert_eq!(b.read(3, 7), c);
    assert_eq!(b.read(3, 8), fill);
    assert_eq!(b.read(BUFFER_HEIGHT - 1, BUFFER_WIDTH - 1), fill);
}

#[test]
fn new_writer_is_blank() {
    let w = Writer::new(pink_on_black());
    assert_eq!(w.column_position(), 0);
    assert_eq!(w.color_code(), pink_on_black());
    for r in 0..BUFFER_HEIGHT {
        for c in 0..BUFFER_WIDTH {
            assert_eq!(w.read_cell(r, c), ScreenChar { ascii_character: b' ', color_code: pink_on_black() });
        }
    }
}

#[test]
fn test_println_simple() {
    let mut w = Writer::new(pink_on_black());
    w.write_string("test_println_simple output\n");
    assert_eq!(w.column_position(), 0);
    assert_eq!(bottom_row_text(&w, BUFFER_HEIGHT - 2, 26), b"test_println_simple output".to_vec());
}

#[test]
fn test_println_many() {
    let mut w = Writer::new(pink_on_black());
    for _ in 0..200 {
        w.write_string("test_println_many output\n");
    }
    assert_eq!(w.column_position(), 0);
}

#[test]
fn test_println_output() {
    let mut w = Writer::new(pink_on_black());
    let s = "Some test string that fits on a single line";
    w.write_string(s);
    w.write_string("\n");
    for (i, c) in s.chars().enumerate() {
        let screen_char = w.read_cell(BUFFER_HEIGHT - 2, i);
        assert_eq!(char::from(screen_char.ascii_character), c);
    }
}

#[test]
fn printable_text_reads_back() {
    let mut w = Writer::new(pink_on_black());
    w.clear_row(BUFFER_HEIGHT - 1);
    let s = "Hello, World! ~{}[]0123456789";
    w.write_string(s);
    assert_eq!(w.column_position(), s.len());
    for (i, b) in s.bytes().enumerate() {
        assert_eq!(w.read_cell(BUFFER_HEIGHT - 1, i), ScreenChar { ascii_character: b, color_code: pink_on_black() });
    }
}

#[test]
fn full_row_reads_back() {
    let mut w = Writer::new(pink_on_black());
    let s: String = (0..BUFFER_WIDTH).map(|i| (b'!' + (i % 90) as u8) as char).collect();
    w.write_string(&s);
    assert_eq!(w.column_position(), BUFFER_WIDTH);
    assert_eq!(bottom_row_text(&w, BUFFER_HEIGHT - 1, BUFFER_WIDTH), s.as_bytes().to_vec());
    assert_eq!(w.read_cell(BUFFER_HEIGHT - 2, 0).ascii_character, b' ');
}

#[test]
fn unprintable_bytes_show_placeholder() {
    let mut w = Writer::new(pink_on_black());
    w.write_string("a\u{7f}\tb\u{e4}");
    assert_eq!(w.column_position(), 6);
    assert_eq!(bottom_row_text(&w, BUFFER_HEIGHT - 1, 6), vec![b'a', 0xfe, 0xfe, b'b', 0xfe, 0xfe]);
}

#[test]
fn write_byte_keeps_raw_byte() {
    let mut w = Writer::new(pink_on_black());
    w.write_byte(0x01);
    assert_eq!(w.read_cell(BUFFER_HEIGHT - 1, 0).ascii_character, 0x01);
    assert_eq!(w.column_position(), 1);
}

#[test]
fn overlong_line_scrolls_once() {
    let mut w = Writer::new(pink_on_black());
    w.write_string("top");
    w.write_string("\n");
    let line: String = (0..BUFFER_WIDTH + 1).map(|i| (b'A' + (i % 26) as u8) as char).collect();
    w.write_string(&line);
    assert_eq!(w.column_position(), 1);
    assert_eq!(bottom_row_text(&w, BUFFER_HEIGHT - 2, BUFFER_WIDTH), line.as_bytes()[..BUFFER_WIDTH].to_vec());
    assert_eq!(w.read_cell(BUFFER_HEIGHT - 1, 0).ascii_character, line.as_bytes()[BUFFER_WIDTH]);
    assert_eq!(w.read_cell(BUFFER_HEIGHT - 1, 1).ascii_character, b' ');
    assert_eq!(bottom_row_text(&w, BUFFER_HEIGHT - 3, 3), b"top".to_vec());
}

#[test]
fn old_lines_scroll_off() {
    let mut w = Writer::new(pink_on_black());
    w.write_string("FIRST LINE\n");
    for i in 0..BUFFER_HEIGHT {
        w.write_string(&format!("line {}\n", i));
    }
    for r in 0..BUFFER_HEIGHT {
        assert_ne!(bottom_row_text(&w, r, 10), b"FIRST LINE".to_vec());
    }
    assert_eq!(bottom_row_text(&w, BUFFER_HEIGHT - 2, 7), b"line 24".to_vec());
    assert_eq!(bottom_row_text(&w, BUFFER_HEIGHT - 3, 7), b"line 23".to_vec());
    assert_eq!(bottom_row_text(&w, BUFFER_HEIGHT - 1, BUFFER_WIDTH), vec![b' '; BUFFER_WIDTH]);
    assert_eq!(w.column_position(), 0);
}

#[test]
fn clear_row_blanks_every_cell() {
    let mut w = Writer::new(ColorCode::new(Color::White, Color::Blue));
    let s: String = (0..BUFFER_WIDTH).map(|_| 'x').collect();
    w.write_string(&s);
    w.clear_row(BUFFER_HEIGHT - 1);
    for c in 0..BUFFER_WIDTH {
        assert_eq!(
            w.read_cell(BUFFER_HEIGHT - 1, c),
            ScreenChar { ascii_character: b' ', color_code: ColorCode(0x1f) }
        );
    }
    assert_eq!(w.column_position(), BUFFER_WIDTH);
}

#[test]
fn new_line_moves_rows_up_with_attributes() {
    let mut w = Writer::new(pink_on_black());
    w.write_string("abc");
    w.new_line();
    assert_eq!(w.column_position(), 0);
    assert_eq!(w.read_cell(BUFFER_HEIGHT - 2, 1), ScreenChar { ascii_character: b'b', color_code: ColorCode(0x0d) });
    assert_eq!(w.read_cell(BUFFER_HEIGHT - 1, 1).ascii_character, b' ');
}

#[test]
fn scenario_os_then_wrap() {
    let mut w = Writer::new(pink_on_black());
    w.write_string("OS");
    assert_eq!(w.read_cell(BUFFER_HEIGHT - 1, 0), ScreenChar { ascii_character: b'O', color_code: pink_on_black() });
    assert_eq!(w.read_cell(BUFFER_HEIGHT - 1, 1), ScreenChar { ascii_character: b'S', color_code: pink_on_black() });
    assert_eq!(w.column_position(), 2);
    let more: String = (0..83).map(|i| (b'a' + (i % 26) as u8) as char).collect();
    w.write_string(&more);
    let all: Vec<u8> = "OS".bytes().chain(more.bytes()).collect();
    assert_eq!(all.len(), 85);
    assert_eq!(bottom_row_text(&w, BUFFER_HEIGHT - 1, 5), all[80..85].to_vec());
    assert_eq!(bottom_row_text(&w, BUFFER_HEIGHT - 2, BUFFER_WIDTH), all[..80].to_vec());
    assert_eq!(w.column_position(), 5);
    for r in 0..BUFFER_HEIGHT - 2 {
        assert_eq!(bottom_row_text(&w, r, BUFFER_WIDTH), vec![b' '; BUFFER_WIDTH]);
    }
}

#[test]
fn scenario_many_lines_end_at_column_zero() {
    let mut w = Writer::new(pink_on_black());
    for _ in 0..200 {
        w.write_string("repeated output line");
        w.write_string("\n");
    }
    assert_eq!(w.column_position(), 0);
    assert_eq!(bottom_row_text(&w, BUFFER_HEIGHT - 2, 20), b"repeated output line".to_vec());
    assert_eq!(bottom_row_text(&w, BUFFER_HEIGHT - 3, 20), b"repeated output line".to_vec());
    assert_eq!(bottom_row_text(&w, 0, 20), b"repeated output line".to_vec());
    assert_eq!(w.read_cell(BUFFER_HEIGHT - 2, 20).ascii_character, b' ');
    for c in 0..BUFFER_WIDTH {
        assert_eq!(w.read_cell(BUFFER_HEIGHT - 1, c), ScreenChar { ascii_character: b' ', color_code: pink_on_black() });
    }
}
