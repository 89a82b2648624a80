use ham_dos::vga_driver::{
    buffer_address_for, is_printable, Color, ScreenCharAttr, VgaBuffer, DEFAULT_TEXT_ATTR,
};

#[test]
fn attribute_packing() {
    // Cyan background (3) in the high nibble, white text (15) low.
    assert_eq!(ScreenCharAttr::new(Color::White, Color::Cyan).val, 0x3F);
    assert_eq!(ScreenCharAttr::new(Color::LightBlue, Color::Brown).val, 0x69);
    assert_eq!(ScreenCharAttr::new(Color::Black, Color::Black).val, 0x00);
}

#[test]
fn fresh_screen_is_cleared() {
    let v = VgaBuffer::new();
    for cell in 0..(80 * 25) {
        assert_eq!(v.buffer[2 * cell], 0);
        assert_eq!(v.buffer[2 * cell + 1], DEFAULT_TEXT_ATTR);
    }
}

#[test]
fn print_byte_draws_and_advances() {
    let mut v = VgaBuffer::new();
    v.print_byte(b'A');
    assert_eq!(v.buffer[0], b'A');
    assert_eq!(v.col, 1);
    assert_eq!(v.row, 0);
}

#[test]
fn unprintable_byte_draws_replacement() {
    let mut v = VgaBuffer::new();
    v.print_byte(0x01);
    assert_eq!(v.buffer[0], 0xFE);
}

#[test]
fn line_feed_and_backspace() {
    let mut v = VgaBuffer::new();
    v.print(b"ab\n");
    assert_eq!(v.row, 1);
    assert_eq!(v.col, 0);
    // Backspace steps the column back but never past the line start.
    v.print_byte(8);
    assert_eq!(v.col, 0);
    v.print(b"cd");
    v.print_byte(8);
    assert_eq!(v.col, 1);
}

#[test]
fn long_line_wraps() {
    let mut v = VgaBuffer::new();
    let line = [b'x'; 81];
    v.print(&line);
    // The 81st byte starts the next row.
    assert_eq!(v.row, 1);
    assert_eq!(v.col, 1);
    assert_eq!(v.buffer[160], b'x');
    assert_eq!(v.buffer[2 * 79], b'x');
}

#[test]
fn bottom_of_screen_scrolls() {
    let mut v = VgaBuffer::new();
    v.print(b"top");
    for _ in 0..25 {
        v.print_byte(b'\n');
    }
    // The cursor sits one past the last row; the next byte scrolls.
    assert_eq!(v.row, 25);
    v.print_byte(b'B');
    assert_eq!(v.row, 24);
    assert_eq!(v.buffer[160 * 24], b'B');
    // The old top line scrolled off.
    assert_eq!(v.buffer[0], 0);
}

#[test]
fn scroll_moves_rows_up() {
    let mut v = VgaBuffer::new();
    for _ in 0..24 {
        v.print_byte(b'\n');
    }
    v.print(b"last");
    // Cursor is on row 24; force one scroll with a line feed + byte.
    v.print_byte(b'\n');
    v.print_byte(b'Z');
    // "last" moved from row 24 to row 23.
    assert_eq!(v.buffer[160 * 23], b'l');
    assert_eq!(v.buffer[160 * 23 + 2], b'a');
    assert_eq!(v.buffer[160 * 24], b'Z');
}

#[test]
fn clear_rect_clears_only_the_rect() {
    let mut v = VgaBuffer::new();
    v.print(b"abcdef");
    v.clear_rect(0, 1, 1, 2);
    assert_eq!(v.buffer[0], b'a');
    assert_eq!(v.buffer[2], 0);
    assert_eq!(v.buffer[3], DEFAULT_TEXT_ATTR);
    assert_eq!(v.buffer[4], 0);
    assert_eq!(v.buffer[6], b'd');
}

#[test]
fn clear_text_and_apply_attr_recolors() {
    let mut v = VgaBuffer::new();
    v.print(b"hello");
    let attr = ScreenCharAttr::new(Color::White, Color::Cyan);
    v.clear_text_and_apply_attr(attr);
    assert_eq!(v.all_screen_attr, attr);
    for cell in 0..(80 * 25) {
        assert_eq!(v.buffer[2 * cell], 0);
        assert_eq!(v.buffer[2 * cell + 1], attr.val);
    }
}

#[test]
fn attributed_text_colors_cells() {
    let mut v = VgaBuffer::new();
    let attr = ScreenCharAttr::new(Color::LightBlue, Color::Brown);
    v.print_attributed_text("ok\n!", attr);
    assert_eq!(v.buffer[0], b'o');
    assert_eq!(v.buffer[1], attr.val);
    assert_eq!(v.buffer[2], b'k');
    assert_eq!(v.buffer[3], attr.val);
    // The line feed is not printable: it colors nothing.
    assert_eq!(v.buffer[160], b'!');
    assert_eq!(v.buffer[161], attr.val);
    assert_eq!(v.buffer[4], 0);
}

#[test]
fn screen_addresses() {
    assert_eq!(buffer_address_for(0, 0), 0xB8000);
    assert_eq!(buffer_address_for(1, 2), 0xB8000 + 164);
    assert_eq!(buffer_address_for(24, 79), 0xB8000 + 160 * 24 + 158);
}

#[test]
fn printable_range() {
    assert!(is_printable(0x20));
    assert!(is_printable(b'Z'));
    assert!(is_printable(0x7E));
    assert!(!is_printable(0x1F));
    assert!(!is_printable(0x7F));
    assert!(!is_printable(10));
}
