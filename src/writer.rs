use vstd::prelude::*;
use vstd::string::StringSliceAdditionalSpecFns;
use crate::buffer::{grid_shape, Buffer, ScreenChar, BUFFER_HEIGHT, BUFFER_WIDTH};
use crate::color::ColorCode;

verus! {

/// The line-feed byte.
pub const NEWLINE: u8 = 0x0a;

/// The glyph drawn for a byte that has no printable form (a solid block).
pub const PLACEHOLDER: u8 = 0xfe;

/// The screen grid as the writer's contracts see it.
pub type Grid = Seq<Seq<ScreenChar>>;

/// A space in the given attribute.
pub open spec fn blank(attr: ColorCode) -> ScreenChar {
    ScreenChar { ascii_character: 0x20, color_code: attr }
}

/// A whole row of blanks.
pub open spec fn blank_row(attr: ColorCode) -> Seq<ScreenChar> {
    Seq::new(BUFFER_WIDTH as nat, |c: int| blank(attr))
}

/// The grid after one scroll: every row moves up by one, the top row is
/// dropped and the bottom row is blank.
pub open spec fn scrolled(g: Grid, attr: ColorCode) -> Grid {
    Seq::new(
        BUFFER_HEIGHT as nat,
        |r: int|
            if r < BUFFER_HEIGHT - 1 {
                g[r + 1]
            } else {
                blank_row(attr)
            },
    )
}

/// The grid with `c` placed at column `col` of the bottom row.
pub open spec fn put_bottom(g: Grid, col: int, c: ScreenChar) -> Grid {
    g.update(BUFFER_HEIGHT - 1, g[BUFFER_HEIGHT - 1].update(col, c))
}

/// Cursor column and grid after one raw byte: a newline scrolls; any other
/// byte wraps to a new line when the bottom row is full, is stored at the
/// cursor and advances it.
pub open spec fn step_byte(col: nat, g: Grid, attr: ColorCode, b: u8) -> (nat, Grid) {
    if b == NEWLINE {
        (0, scrolled(g, attr))
    } else if col >= BUFFER_WIDTH {
        (1, put_bottom(scrolled(g, attr), 0, ScreenChar { ascii_character: b, color_code: attr }))
    } else {
        (col + 1, put_bottom(g, col as int, ScreenChar { ascii_character: b, color_code: attr }))
    }
}

/// Printable ASCII, `0x20..=0x7e`.
pub open spec fn is_printable(b: u8) -> bool {
    0x20 <= b <= 0x7e
}

/// The byte that is drawn for `b` when it comes as part of a string:
/// newlines and printable ASCII pass, everything else is the placeholder.
pub open spec fn shown_byte(b: u8) -> u8 {
    if b == NEWLINE || is_printable(b) {
        b
    } else {
        PLACEHOLDER
    }
}

/// Cursor column and grid after writing the bytes of a string, one by one.
pub open spec fn write_bytes(col: nat, g: Grid, attr: ColorCode, s: Seq<u8>) -> (nat, Grid)
    decreases s.len(),
{
    if s.len() == 0 {
        (col, g)
    } else {
        let p = write_bytes(col, g, attr, s.drop_last());
        step_byte(p.0, p.1, attr, shown_byte(s.last()))
    }
}

/// The console writer: the cursor column on the bottom row, the attribute
/// of new text, and the grid it owns.
pub struct Writer {
    column_position: usize,
    color_code: ColorCode,
    buffer: Buffer,
}

impl Writer {
    /// The next free column of the bottom row.
    pub closed spec fn column(&self) -> nat {
        self.column_position as nat
    }

    /// The attribute applied to new text.
    pub closed spec fn attribute(&self) -> ColorCode {
        self.color_code
    }

    /// The contents of the screen.
    pub closed spec fn grid(&self) -> Grid {
        self.buffer@
    }

    /// The cursor stays within a row and the grid has the screen's shape.
    pub open spec fn wf(&self) -> bool {
        &&& self.column() <= BUFFER_WIDTH
        &&& grid_shape(self.grid())
    }

    /// A writer at column 0 over a blank screen.
    pub fn new(color_code: ColorCode) -> (r: Writer)
        ensures
            r.wf(),
            r.column() == 0,
            r.attribute() == color_code,
            forall|row: int| 0 <= row < BUFFER_HEIGHT ==> #[trigger] r.grid()[row] == blank_row(color_code),
    {
        let fill = ScreenChar { ascii_character: 0x20, color_code };
        let buffer = Buffer::new(fill);
        let r = Writer { column_position: 0, color_code, buffer };
        assert forall|row: int| 0 <= row < BUFFER_HEIGHT implies #[trigger] r.grid()[row] == blank_row(color_code) by {
            assert(r.grid()[row] =~= blank_row(color_code));
        }
        r
    }

    /// The next free column of the bottom row.
    pub fn column_position(&self) -> (r: usize)
        ensures
            r == self.column(),
    {
        self.column_position
    }

    /// The attribute applied to new text.
    pub fn color_code(&self) -> (r: ColorCode)
        ensures
            r == self.attribute(),
    {
        self.color_code
    }

    /// The cell at `(row, col)`, read through the volatile accessor.
    pub fn read_cell(&self, row: usize, col: usize) -> (r: ScreenChar)
        requires
            self.wf(),
            row < BUFFER_HEIGHT,
            col < BUFFER_WIDTH,
        ensures
            r == self.grid()[row as int][col as int],
    {
        self.buffer.read(row, col)
    }
}

impl Writer {
    /// Overwrites every cell of `row` with a space in the current
    /// attribute; nothing else changes.
    pub fn clear_row(&mut self, row: usize)
        requires
            old(self).wf(),
            row < BUFFER_HEIGHT,
        ensures
            final(self).wf(),
            final(self).column() == old(self).column(),
            final(self).attribute() == old(self).attribute(),
            final(self).grid() == old(self).grid().update(row as int, blank_row(old(self).attribute())),
            forall|col: int|
                0 <= col < BUFFER_WIDTH ==> #[trigger] final(self).grid()[row as int][col] == blank(
                    old(self).attribute(),
                ),
    {
        let ghost g0 = self.grid();
        let blank_cell = ScreenChar { ascii_character: 0x20, color_code: self.color_code };
        let mut col: usize = 0;
        while col < BUFFER_WIDTH
            invariant
                col <= BUFFER_WIDTH,
                row < BUFFER_HEIGHT,
                grid_shape(g0),
                self.wf(),
                self.column() == old(self).column(),
                self.attribute() == old(self).attribute(),
                blank_cell == blank(self.attribute()),
                g0 == old(self).grid(),
                forall|r: int| 0 <= r < BUFFER_HEIGHT && r != row ==> self.grid()[r] == g0[r],
                forall|c: int| 0 <= c < col ==> self.grid()[row as int][c] == blank_cell,
                forall|c: int| col <= c < BUFFER_WIDTH ==> self.grid()[row as int][c] == g0[row as int][c],
            decreases BUFFER_WIDTH - col,
        {
            self.buffer.write(row, col, blank_cell);
            col = col + 1;
        }
        assert(self.grid()[row as int] =~= blank_row(self.attribute()));
        assert(self.grid() =~= g0.update(row as int, blank_row(self.attribute())));
    }

    /// Scrolls by one line: rows `1..BUFFER_HEIGHT` move up one row, cell
    /// by cell with their attributes, the bottom row is cleared and the
    /// cursor returns to column 0.
    pub fn new_line(&mut self)
        requires
            old(self).wf(),
        ensures
            final(self).wf(),
            final(self).column() == 0,
            final(self).attribute() == old(self).attribute(),
            final(self).grid() == scrolled(old(self).grid(), old(self).attribute()),
    {
        let ghost g0 = self.grid();
        let mut row: usize = 1;
        while row < BUFFER_HEIGHT
            invariant
                1 <= row <= BUFFER_HEIGHT,
                grid_shape(g0),
                self.wf(),
                self.column() == old(self).column(),
                self.attribute() == old(self).attribute(),
                g0 == old(self).grid(),
                forall|r: int| 0 <= r < row - 1 ==> self.grid()[r] == g0[r + 1],
                forall|r: int| row - 1 <= r < BUFFER_HEIGHT ==> self.grid()[r] == g0[r],
            decreases BUFFER_HEIGHT - row,
        {
            let mut col: usize = 0;
            while col < BUFFER_WIDTH
                invariant
                    col <= BUFFER_WIDTH,
                    1 <= row < BUFFER_HEIGHT,
                    grid_shape(g0),
                    self.wf(),
                    self.column() == old(self).column(),
                    self.attribute() == old(self).attribute(),
                    forall|r: int| 0 <= r < row - 1 ==> self.grid()[r] == g0[r + 1],
                    forall|r: int| row <= r < BUFFER_HEIGHT ==> self.grid()[r] == g0[r],
                    forall|c: int| 0 <= c < col ==> self.grid()[row - 1][c] == g0[row as int][c],
                    forall|c: int|
                        col <= c < BUFFER_WIDTH ==> #[trigger] self.grid()[row - 1][c] == g0[row - 1][c],
                decreases BUFFER_WIDTH - col,
            {
                let character = self.buffer.read(row, col);
                self.buffer.write(row - 1, col, character);
                col = col + 1;
            }
            assert(self.grid()[row - 1] =~= g0[row as int]);
            row = row + 1;
        }
        self.clear_row(BUFFER_HEIGHT - 1);
        self.column_position = 0;
        assert(self.grid() =~= scrolled(g0, self.attribute()));
    }

    /// Writes one raw byte. A newline scrolls. Any other byte goes to the
    /// cursor on the bottom row, after a scroll when that row is full, and
    /// the cursor advances.
    pub fn write_byte(&mut self, byte: u8)
        requires
            old(self).wf(),
        ensures
            final(self).wf(),
            final(self).attribute() == old(self).attribute(),
            (final(self).column(), final(self).grid()) == step_byte(
                old(self).column(),
                old(self).grid(),
                old(self).attribute(),
                byte,
            ),
    {
        if byte == NEWLINE {
            self.new_line();
        } else {
            if self.column_position >= BUFFER_WIDTH {
                self.new_line();
            }
            let row = BUFFER_HEIGHT - 1;
            let col = self.column_position;
            let color_code = self.color_code;
            self.buffer.write(row, col, ScreenChar { ascii_character: byte, color_code });
            self.column_position = self.column_position + 1;
        }
    }

    /// Writes a string byte by byte. Newlines and printable ASCII are
    /// written as they are; every other byte is drawn as the placeholder.
    pub fn write_string(&mut self, s: &str)
        requires
            old(self).wf(),
        ensures
            final(self).wf(),
            final(self).attribute() == old(self).attribute(),
            (final(self).column(), final(self).grid()) == write_bytes(
                old(self).column(),
                old(self).grid(),
                old(self).attribute(),
                s.spec_bytes(),
            ),
    {
        let bytes = s.as_bytes();
        let ghost col0 = self.column();
        let ghost g0 = self.grid();
        let ghost attr = self.attribute();
        let mut i: usize = 0;
        while i < bytes.len()
            invariant
                i <= bytes@.len(),
                bytes@ == s.spec_bytes(),
                self.wf(),
                self.attribute() == attr,
                attr == old(self).attribute(),
                col0 == old(self).column(),
                g0 == old(self).grid(),
                (self.column(), self.grid()) == write_bytes(col0, g0, attr, bytes@.subrange(0, i as int)),
            decreases bytes@.len() - i,
        {
            let byte = bytes[i];
            if (0x20 <= byte && byte <= 0x7e) || byte == NEWLINE {
                self.write_byte(byte);
            } else {
                self.write_byte(PLACEHOLDER);
            }
            assert(bytes@.subrange(0, i + 1).drop_last() =~= bytes@.subrange(0, i as int));
            i = i + 1;
        }
        assert(bytes@.subrange(0, bytes@.len() as int) =~= bytes@);
    }
}

} // verus!
