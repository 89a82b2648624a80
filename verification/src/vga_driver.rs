//! Text-mode renderer for the 80x25 memory-mapped screen.
//!
//! Each screen cell is two bytes, character then attribute. The renderer
//! draws into a buffer it owns — cursor advance, line wrap, scrolling,
//! backspace, the replacement glyph for unprintable bytes — and the
//! binary blits that buffer to the memory-mapped screen. Every operation
//! is specified as a transition on the buffer's view.

use vstd::prelude::*;
use vstd::string::StringSliceAdditionalSpecFns;

verus! {

pub const VGA_BUFFER_ADDR: usize = 0xB8000;

/// Light grey text on black.
pub const DEFAULT_TEXT_ATTR: u8 = 0x07;

pub const SCREEN_WIDTH: usize = 80;

pub const SCREEN_HEIGHT: usize = 25;

pub const BACKSPACE: u8 = 8;

pub const LINE_FEED: u8 = 10;

/// Bytes in the whole screen buffer: two per cell.
pub const BUFFER_BYTES: usize = 4000;

/// Bytes in one row.
pub const ROW_BYTES: usize = 160;

#[derive(Debug, Clone, Copy, PartialEq, Eq, Structural)]
pub enum Color {
    Black,
    Blue,
    Green,
    Cyan,
    Red,
    Magenta,
    Brown,
    LightGray,
    DarkGray,
    LightBlue,
    LightGreen,
    LightCyan,
    LightRed,
    Pink,
    Yellow,
    White,
}

/// The 4-bit code a color occupies in an attribute byte.
pub open spec fn spec_color_code(c: Color) -> u8 {
    match c {
        Color::Black => 0,
        Color::Blue => 1,
        Color::Green => 2,
        Color::Cyan => 3,
        Color::Red => 4,
        Color::Magenta => 5,
        Color::Brown => 6,
        Color::LightGray => 7,
        Color::DarkGray => 8,
        Color::LightBlue => 9,
        Color::LightGreen => 10,
        Color::LightCyan => 11,
        Color::LightRed => 12,
        Color::Pink => 13,
        Color::Yellow => 14,
        Color::White => 15,
    }
}

impl Color {
    pub fn code(self) -> (r: u8)
        ensures
            r == spec_color_code(self),
            r < 16,
    {
        match self {
            Color::Black => 0,
            Color::Blue => 1,
            Color::Green => 2,
            Color::Cyan => 3,
            Color::Red => 4,
            Color::Magenta => 5,
            Color::Brown => 6,
            Color::LightGray => 7,
            Color::DarkGray => 8,
            Color::LightBlue => 9,
            Color::LightGreen => 10,
            Color::LightCyan => 11,
            Color::LightRed => 12,
            Color::Pink => 13,
            Color::Yellow => 14,
            Color::White => 15,
        }
    }
}

/// One cell's attribute byte: background color in the high nibble,
/// foreground in the low one.
#[derive(Debug, Clone, Copy, PartialEq, Eq, Structural)]
pub struct ScreenCharAttr {
    pub val: u8,
}

impl ScreenCharAttr {
    pub fn new(foreground_color: Color, background_color: Color) -> (r: ScreenCharAttr)
        ensures
            r.val == spec_color_code(background_color) * 16 + spec_color_code(foreground_color),
    {
        let bg = background_color.code();
        let fg = foreground_color.code();
        proof {
            assert(bg < 16 && fg < 16 ==> ((bg << 4u8) | fg) == bg * 16 + fg) by (bit_vector);
        }
        ScreenCharAttr { val: (bg << 4) | fg }
    }
}

/// Can the byte be shown as itself? Outside this range a replacement
/// glyph is drawn.
pub open spec fn spec_is_printable(byte: u8) -> bool {
    0x20 <= byte <= 0x7E
}

pub fn is_printable(byte: u8) -> (r: bool)
    ensures
        r == spec_is_printable(byte),
{
    byte >= 0x20 && byte <= 0x7e
}

/// Address of a cell's character byte in the memory-mapped screen; the
/// attribute byte follows it.
pub fn buffer_address_for(row: usize, col: usize) -> (r: usize)
    requires
        row <= SCREEN_HEIGHT,
        col <= SCREEN_WIDTH,
    ensures
        r == VGA_BUFFER_ADDR + row * ROW_BYTES + 2 * col,
{
    let row_byte_count = 2 * SCREEN_WIDTH;
    VGA_BUFFER_ADDR + ((row * row_byte_count) + (2 * col))
}

/// The renderer's whole state, as contracts speak of it.
pub struct VgaView {
    pub row: int,
    pub col: int,
    pub attr: u8,
    pub buffer: Seq<u8>,
}

/// A sound renderer state: a full-sized buffer and a cursor on the
/// screen. The cursor may rest just past a line (column 80, wrapped on
/// the next byte) or just past the last row (row 25, scrolled on the
/// next byte) — but only one of the two, and row 25 only at the line
/// start.
pub open spec fn spec_view_wf(v: VgaView) -> bool {
    &&& v.buffer.len() == BUFFER_BYTES
    &&& 0 <= v.col <= SCREEN_WIDTH
    &&& 0 <= v.row <= SCREEN_HEIGHT
    &&& (v.row == SCREEN_HEIGHT ==> v.col == 0)
}

/// The buffer after one upward scroll: every row takes the contents of
/// the one below it, and the freed last row is cleared to the screen
/// attribute.
pub open spec fn spec_scrolled_buffer(b: Seq<u8>, attr: u8) -> Seq<u8> {
    Seq::new(
        b.len(),
        |k: int|
            if k < BUFFER_BYTES - ROW_BYTES {
                b[k + ROW_BYTES]
            } else if k % 2 == 0 {
                0u8
            } else {
                attr
            },
    )
}

/// The cursor-normalization step that precedes every byte: wrap to the
/// next line when the column ran off the right edge, and scroll one row
/// when the cursor ran off the bottom.
pub open spec fn spec_prestep(v: VgaView) -> VgaView {
    let wrapped = if v.col == SCREEN_WIDTH {
        VgaView { row: v.row + 1, col: 0, attr: v.attr, buffer: v.buffer }
    } else {
        v
    };
    if wrapped.row == SCREEN_HEIGHT {
        VgaView {
            row: wrapped.row - 1,
            col: wrapped.col,
            attr: wrapped.attr,
            buffer: spec_scrolled_buffer(wrapped.buffer, wrapped.attr),
        }
    } else {
        wrapped
    }
}

/// What printing one byte does: normalize the cursor, then either start
/// a new line (line feed), step back (backspace, never past the line
/// start), or draw the byte — a replacement glyph if it is unprintable —
/// and advance.
pub open spec fn spec_print_byte(v0: VgaView, byte: u8) -> VgaView {
    let v = spec_prestep(v0);
    if byte == LINE_FEED {
        VgaView { row: v.row + 1, col: 0, attr: v.attr, buffer: v.buffer }
    } else if byte == BACKSPACE {
        VgaView {
            row: v.row,
            col: if v.col > 0 {
                v.col - 1
            } else {
                0
            },
            attr: v.attr,
            buffer: v.buffer,
        }
    } else {
        let glyph = if spec_is_printable(byte) {
            byte
        } else {
            0xFEu8
        };
        VgaView {
            row: v.row,
            col: v.col + 1,
            attr: v.attr,
            buffer: v.buffer.update(v.row * ROW_BYTES + 2 * v.col, glyph),
        }
    }
}

/// Printing a byte sequence is printing its bytes in order.
pub open spec fn spec_print_bytes(v: VgaView, bytes: Seq<u8>) -> VgaView
    decreases bytes.len(),
{
    if bytes.len() == 0 {
        v
    } else {
        spec_print_byte(spec_print_bytes(v, bytes.drop_last()), bytes.last())
    }
}

/// Printing with an attribute first colors the cell the byte will
/// occupy — when the byte is printable and the cell is on screen — and
/// then prints the byte. (The attribute is written before the cursor is
/// normalized, as the renderer does it; a cursor just past the screen's
/// edge leaves the color write out and the glyph keeps the attribute
/// already there.)
pub open spec fn spec_print_attr_byte(v: VgaView, byte: u8, attr: u8) -> VgaView {
    let colored = if spec_is_printable(byte) && v.row * ROW_BYTES + 2 * v.col + 1 < BUFFER_BYTES {
        VgaView {
            row: v.row,
            col: v.col,
            attr: v.attr,
            buffer: v.buffer.update(v.row * ROW_BYTES + 2 * v.col + 1, attr),
        }
    } else {
        v
    };
    spec_print_byte(colored, byte)
}

/// Printing an attributed byte sequence, byte by byte.
pub open spec fn spec_print_attr_bytes(v: VgaView, bytes: Seq<u8>, attr: u8) -> VgaView
    decreases bytes.len(),
{
    if bytes.len() == 0 {
        v
    } else {
        spec_print_attr_byte(spec_print_attr_bytes(v, bytes.drop_last(), attr), bytes.last(), attr)
    }
}

/// The buffer after a rectangle of cells is cleared: characters to zero,
/// attributes to `attr`, everything outside the rectangle kept.
pub open spec fn spec_cleared_rect(
    b: Seq<u8>,
    start_row: int,
    rows: int,
    start_col: int,
    cols: int,
    attr: u8,
) -> Seq<u8> {
    Seq::new(
        b.len(),
        |k: int|
            {
                let r = k / (ROW_BYTES as int);
                let c = (k % (ROW_BYTES as int)) / 2;
                if start_row <= r < start_row + rows && start_col <= c < start_col + cols {
                    if k % 2 == 0 {
                        0u8
                    } else {
                        attr
                    }
                } else {
                    b[k]
                }
            },
    )
}

/// How a cell's two byte indices decompose into its row and column.
proof fn lemma_cell_decompose(i: int, j: int)
    requires
        0 <= i,
        0 <= j < 80,
    ensures
        (160 * i + 2 * j) / 160 == i,
        ((160 * i + 2 * j) % 160) / 2 == j,
        (160 * i + 2 * j) % 2 == 0,
        (160 * i + 2 * j + 1) / 160 == i,
        ((160 * i + 2 * j + 1) % 160) / 2 == j,
        (160 * i + 2 * j + 1) % 2 == 1,
{
    assert((160 * i + 2 * j) / 160 == i && (160 * i + 2 * j) % 160 == 2 * j && (160 * i + 2 * j)
        % 2 == 0 && (160 * i + 2 * j + 1) / 160 == i && (160 * i + 2 * j + 1) % 160 == 2 * j + 1
        && (160 * i + 2 * j + 1) % 2 == 1 && (2 * j) / 2 == j && (2 * j + 1) / 2 == j) by (
    nonlinear_arith)
        requires
            0 <= i,
            0 <= j < 80,
    ;
}

/// The renderer: cursor position, the attribute whole-screen clears
/// paint with, and the owned screen buffer the binary blits out.
pub struct VgaBuffer {
    pub row: usize,
    pub col: usize,
    pub all_screen_attr: ScreenCharAttr,
    pub buffer: Vec<u8>,
}

impl View for VgaBuffer {
    type V = VgaView;

    open spec fn view(&self) -> VgaView {
        VgaView {
            row: self.row as int,
            col: self.col as int,
            attr: self.all_screen_attr.val,
            buffer: self.buffer@,
        }
    }
}

impl VgaBuffer {
    pub open spec fn wf(&self) -> bool {
        spec_view_wf(self@)
    }

    /// A renderer with a cleared screen: cursor at the origin, the
    /// default attribute everywhere.
    pub fn new() -> (r: VgaBuffer)
        ensures
            r.wf(),
            r@.row == 0,
            r@.col == 0,
            r@.attr == DEFAULT_TEXT_ATTR,
            r@.buffer == spec_cleared_rect(
                Seq::new(BUFFER_BYTES as nat, |k: int| 0u8),
                0,
                SCREEN_HEIGHT as int,
                0,
                SCREEN_WIDTH as int,
                DEFAULT_TEXT_ATTR,
            ),
    {
        let mut r = VgaBuffer {
            row: 0,
            col: 0,
            all_screen_attr: ScreenCharAttr { val: DEFAULT_TEXT_ATTR },
            buffer: Vec::new(),
        };
        while r.buffer.len() < BUFFER_BYTES
            invariant
                r.row == 0,
                r.col == 0,
                r.all_screen_attr.val == DEFAULT_TEXT_ATTR,
                r.buffer.len() <= BUFFER_BYTES,
                forall|k: int| 0 <= k < r.buffer.len() ==> r.buffer[k] == 0,
            decreases BUFFER_BYTES - r.buffer.len(),
        {
            r.buffer.push(0);
        }
        proof {
            assert(r.buffer@ =~= Seq::new(BUFFER_BYTES as nat, |k: int| 0u8));
        }
        r.clear_screen();
        r
    }

    /// Write one cell's character byte.
    fn write_byte_to_buffer_at(&mut self, byte: u8, row: usize, col: usize)
        requires
            old(self).wf(),
            row < SCREEN_HEIGHT,
            col < SCREEN_WIDTH,
        ensures
            final(self).wf(),
            final(self).row == old(self).row,
            final(self).col == old(self).col,
            final(self).all_screen_attr == old(self).all_screen_attr,
            final(self).buffer@ == old(self).buffer@.update(row * ROW_BYTES + 2 * col, byte),
    {
        self.buffer.set(row * ROW_BYTES + 2 * col, byte);
    }

    /// Write one cell's attribute byte.
    fn write_attribute_to_buffer_at(&mut self, attr: ScreenCharAttr, row: usize, col: usize)
        requires
            old(self).wf(),
            row < SCREEN_HEIGHT,
            col < SCREEN_WIDTH,
        ensures
            final(self).wf(),
            final(self).row == old(self).row,
            final(self).col == old(self).col,
            final(self).all_screen_attr == old(self).all_screen_attr,
            final(self).buffer@ == old(self).buffer@.update(
                row * ROW_BYTES + 2 * col + 1,
                attr.val,
            ),
    {
        self.buffer.set(row * ROW_BYTES + 2 * col + 1, attr.val);
    }

    /// Write the character byte under the cursor.
    fn write_byte_to_buffer(&mut self, byte: u8)
        requires
            old(self).wf(),
            old(self).row < SCREEN_HEIGHT,
            old(self).col < SCREEN_WIDTH,
        ensures
            final(self).wf(),
            final(self).row == old(self).row,
            final(self).col == old(self).col,
            final(self).all_screen_attr == old(self).all_screen_attr,
            final(self).buffer@ == old(self).buffer@.update(
                old(self).row * ROW_BYTES + 2 * old(self).col,
                byte,
            ),
    {
        let r = self.row;
        let c = self.col;
        self.write_byte_to_buffer_at(byte, r, c);
    }

    /// Write the attribute byte under the cursor.
    fn write_attribute_to_buffer(&mut self, attr: ScreenCharAttr)
        requires
            old(self).wf(),
            old(self).row < SCREEN_HEIGHT,
            old(self).col < SCREEN_WIDTH,
        ensures
            final(self).wf(),
            final(self).row == old(self).row,
            final(self).col == old(self).col,
            final(self).all_screen_attr == old(self).all_screen_attr,
            final(self).buffer@ == old(self).buffer@.update(
                old(self).row * ROW_BYTES + 2 * old(self).col + 1,
                attr.val,
            ),
    {
        let r = self.row;
        let c = self.col;
        self.write_attribute_to_buffer_at(attr, r, c);
    }

    /// Clear a rectangle of cells: characters to zero, attributes to the
    /// screen attribute.
    pub fn clear_rect(&mut self, start_row: usize, rows: usize, start_col: usize, cols: usize)
        requires
            old(self).wf(),
            start_row + rows <= SCREEN_HEIGHT,
            start_col + cols <= SCREEN_WIDTH,
        ensures
            final(self).wf(),
            final(self).row == old(self).row,
            final(self).col == old(self).col,
            final(self).all_screen_attr == old(self).all_screen_attr,
            final(self).buffer@ == spec_cleared_rect(
                old(self).buffer@,
                start_row as int,
                rows as int,
                start_col as int,
                cols as int,
                old(self).all_screen_attr.val,
            ),
    {
        let ghost b0 = self.buffer@;
        let ghost target = spec_cleared_rect(
            b0,
            start_row as int,
            rows as int,
            start_col as int,
            cols as int,
            self.all_screen_attr.val,
        );
        let mut i = start_row;
        while i < start_row + rows
            invariant
                self.wf(),
                self.row == old(self).row,
                self.col == old(self).col,
                self.all_screen_attr == old(self).all_screen_attr,
                start_row <= i <= start_row + rows,
                start_row + rows <= SCREEN_HEIGHT,
                start_col + cols <= SCREEN_WIDTH,
                b0.len() == BUFFER_BYTES,
                target == spec_cleared_rect(
                    b0,
                    start_row as int,
                    rows as int,
                    start_col as int,
                    cols as int,
                    old(self).all_screen_attr.val,
                ),
                forall|k: int|
                    0 <= k < BUFFER_BYTES ==> #[trigger] self.buffer@[k] == (if k / 160 < i
                        && start_row <= k / 160 && start_col <= (k % 160) / 2 < start_col + cols {
                        target[k]
                    } else {
                        b0[k]
                    }),
            decreases start_row + rows - i,
        {
            let mut j = start_col;
            while j < start_col + cols
                invariant
                    self.wf(),
                    self.row == old(self).row,
                    self.col == old(self).col,
                    self.all_screen_attr == old(self).all_screen_attr,
                    start_row <= i < start_row + rows,
                    start_col <= j <= start_col + cols,
                    start_row + rows <= SCREEN_HEIGHT,
                    start_col + cols <= SCREEN_WIDTH,
                    b0.len() == BUFFER_BYTES,
                    target == spec_cleared_rect(
                        b0,
                        start_row as int,
                        rows as int,
                        start_col as int,
                        cols as int,
                        old(self).all_screen_attr.val,
                    ),
                    forall|k: int|
                        0 <= k < BUFFER_BYTES ==> #[trigger] self.buffer@[k] == (if (k / 160 < i
                            && start_row <= k / 160 && start_col <= (k % 160) / 2 < start_col
                            + cols) || (k / 160 == i && start_col <= (k % 160) / 2 < j) {
                            target[k]
                        } else {
                            b0[k]
                        }),
                decreases start_col + cols - j,
            {
                let attr = self.all_screen_attr;
                self.write_byte_to_buffer_at(0x00, i, j);
                self.write_attribute_to_buffer_at(attr, i, j);
                proof {
                    lemma_cell_decompose(i as int, j as int);
                }
                j = j + 1;
            }
            i = i + 1;
        }
        proof {
            assert forall|k: int| 0 <= k < BUFFER_BYTES implies self.buffer@[k] == target[k] by {
                lemma_cell_decompose(k / 160, (k % 160) / 2);
                assert(k == 160 * (k / 160) + (k % 160) && 0 <= k % 160 < 160 && (k % 160) == 2 * ((
                k % 160) / 2) + (k % 2) && 0 <= (k % 160) / 2 < 80) by (nonlinear_arith)
                    requires
                        0 <= k < 4000,
                ;
            }
            assert(self.buffer@ =~= target);
        }
    }

    /// Clear the whole screen with the current screen attribute.
    pub fn clear_screen(&mut self)
        requires
            old(self).wf(),
        ensures
            final(self).wf(),
            final(self).row == old(self).row,
            final(self).col == old(self).col,
            final(self).all_screen_attr == old(self).all_screen_attr,
            final(self).buffer@ == spec_cleared_rect(
                old(self).buffer@,
                0,
                SCREEN_HEIGHT as int,
                0,
                SCREEN_WIDTH as int,
                old(self).all_screen_attr.val,
            ),
    {
        self.clear_rect(0, SCREEN_HEIGHT, 0, SCREEN_WIDTH);
    }

    /// Clear the text on the whole screen and make the given attribute
    /// the screen attribute.
    pub fn clear_text_and_apply_attr(&mut self, text_attr: ScreenCharAttr)
        requires
            old(self).wf(),
        ensures
            final(self).wf(),
            final(self).row == old(self).row,
            final(self).col == old(self).col,
            final(self).all_screen_attr == text_attr,
            final(self).buffer@ == spec_cleared_rect(
                old(self).buffer@,
                0,
                SCREEN_HEIGHT as int,
                0,
                SCREEN_WIDTH as int,
                text_attr.val,
            ),
    {
        self.all_screen_attr = text_attr;
        self.clear_rect(0, SCREEN_HEIGHT, 0, SCREEN_WIDTH);
    }

    /// Scroll one row up: row r takes row r+1, the last row is cleared.
    fn shift_one_row_up(&mut self)
        requires
            old(self).wf(),
        ensures
            final(self).wf(),
            final(self).row == old(self).row,
            final(self).col == old(self).col,
            final(self).all_screen_attr == old(self).all_screen_attr,
            final(self).buffer@ == spec_scrolled_buffer(
                old(self).buffer@,
                old(self).all_screen_attr.val,
            ),
    {
        let ghost borig = self.buffer@;
        // The top row is about to be overwritten by the copy; clearing it
        // first keeps the screen consistent if the blit races the copy.
        self.clear_rect(0, 1, 0, SCREEN_WIDTH);
        let ghost b1 = self.buffer@;

        // Each character and attribute moves one row (160 bytes) down in
        // index terms: a flat copy with that offset.
        let mut k: usize = 0;
        while k < BUFFER_BYTES - ROW_BYTES
            invariant
                self.wf(),
                self.row == old(self).row,
                self.col == old(self).col,
                self.all_screen_attr == old(self).all_screen_attr,
                k <= BUFFER_BYTES - ROW_BYTES,
                b1.len() == BUFFER_BYTES,
                forall|t: int| 0 <= t < k ==> #[trigger] self.buffer@[t] == b1[t + ROW_BYTES],
                forall|t: int| k <= t < BUFFER_BYTES ==> #[trigger] self.buffer@[t] == b1[t],
            decreases BUFFER_BYTES - ROW_BYTES - k,
        {
            let v = self.buffer[k + ROW_BYTES];
            self.buffer.set(k, v);
            k = k + 1;
        }

        // The freed last row is cleared before anything lands on it.
        self.clear_rect(SCREEN_HEIGHT - 1, 1, 0, SCREEN_WIDTH);
        proof {
            let bf = self.buffer@;
            let target = spec_scrolled_buffer(borig, old(self).all_screen_attr.val);
            assert forall|t: int| 0 <= t < BUFFER_BYTES implies bf[t] == target[t] by {
                lemma_cell_decompose(t / 160, (t % 160) / 2);
                assert(t == 160 * (t / 160) + (t % 160) && 0 <= t % 160 < 160 && (t % 160) == 2 * ((
                t % 160) / 2) + (t % 2) && 0 <= (t % 160) / 2 < 80 && (t < 3840 ==> t / 160 < 24)
                    && (t >= 3840 ==> t / 160 == 24) && (t + 160) / 160 == t / 160 + 1 && ((t + 160)
                    % 160) == t % 160) by (nonlinear_arith)
                    requires
                        0 <= t < 4000,
                ;
            }
            assert(bf =~= target);
        }
    }

    /// Print one byte at the cursor: wrap and scroll as needed, then
    /// handle line feed and backspace, draw printable bytes, and draw the
    /// replacement glyph for the rest.
    pub fn print_byte(&mut self, byte: u8)
        requires
            old(self).wf(),
        ensures
            final(self).wf(),
            final(self)@ == spec_print_byte(old(self)@, byte),
    {
        // Move to the next line when about to run off the screen's edge.
        if self.col == SCREEN_WIDTH {
            self.row = self.row + 1;
            self.col = 0;
        }

        if self.row == SCREEN_HEIGHT {
            self.row = self.row - 1;
            self.shift_one_row_up();
        }
        proof {
            assert(self@ == spec_prestep(old(self)@));
        }

        if byte == LINE_FEED {
            self.row = self.row + 1;
            self.col = 0;
        } else if byte == BACKSPACE {
            if self.col > 0 {
                self.col = self.col - 1;
            }
        } else if is_printable(byte) {
            self.write_byte_to_buffer(byte);
            self.col = self.col + 1;
        } else {
            self.write_byte_to_buffer(0xfe);
            self.col = self.col + 1;
        }
    }

    /// Print a byte sequence at the cursor.
    pub fn print(&mut self, bytes: &[u8])
        requires
            old(self).wf(),
        ensures
            final(self).wf(),
            final(self)@ == spec_print_bytes(old(self)@, bytes@),
    {
        let ghost v0 = self@;
        let mut i: usize = 0;
        while i < bytes.len()
            invariant
                self.wf(),
                0 <= i <= bytes@.len(),
                self@ == spec_print_bytes(v0, bytes@.take(i as int)),
            decreases bytes@.len() - i,
        {
            let byte = bytes[i];
            self.print_byte(byte);
            proof {
                assert(bytes@.take(i + 1).drop_last() =~= bytes@.take(i as int));
                assert(bytes@.take(i + 1).last() == bytes@[i as int]);
            }
            i = i + 1;
        }
        proof {
            assert(bytes@.take(bytes@.len() as int) =~= bytes@);
        }
    }

    /// Print a string, coloring each printable byte's cell with the
    /// given attribute before drawing it.
    pub fn print_attributed_text(&mut self, string: &str, text_attr: ScreenCharAttr)
        requires
            old(self).wf(),
        ensures
            final(self).wf(),
            final(self)@ == spec_print_attr_bytes(old(self)@, string.spec_bytes(), text_attr.val),
    {
        let bytes = string.as_bytes();
        let ghost bs = string.spec_bytes();
        let ghost v0 = self@;
        let mut i: usize = 0;
        while i < bytes.len()
            invariant
                self.wf(),
                0 <= i <= bs.len(),
                bytes@ == bs,
                self@ == spec_print_attr_bytes(v0, bs.take(i as int), text_attr.val),
            decreases bs.len() - i,
        {
            let byte = bytes[i];
            if is_printable(byte) {
                // The cell's index, before the cursor is normalized: a
                // cursor just past the right edge colors the next line's
                // first cell, exactly where the glyph will land.
                let idx = self.row * ROW_BYTES + 2 * self.col;
                if idx + 1 < BUFFER_BYTES {
                    self.buffer.set(idx + 1, text_attr.val);
                }
            }
            self.print_byte(byte);
            proof {
                assert(bs.take(i + 1).drop_last() =~= bs.take(i as int));
                assert(bs.take(i + 1).last() == bs[i as int]);
            }
            i = i + 1;
        }
        proof {
            assert(bs.take(bs.len() as int) =~= bs);
        }
    }
}

} // verus!
