use vstd::prelude::*;
use volatile::Volatile;
use crate::color::ColorCode;

verus! {

/// Number of text rows on the screen.
pub const BUFFER_HEIGHT: usize = 25;

/// Number of character columns in each row.
pub const BUFFER_WIDTH: usize = 80;

#[verifier::external_type_specification]
#[verifier::external_body]
#[verifier::reject_recursive_types(T)]
pub struct ExVolatile<T: Copy>(Volatile<T>);

/// The value that a volatile cell holds.
pub uninterp spec fn volatile_value(v: Volatile<u16>) -> u16;

/// Relies on volatile::Volatile::new: the new cell holds `value`.
#[verifier::external_body]
fn new_volatile(value: u16) -> (r: Volatile<u16>)
    ensures
        volatile_value(r) == value,
{
    Volatile::new(value)
}

/// Relies on volatile::Volatile::read: a volatile load of the value the
/// cell holds.
#[verifier::external_body]
fn read_volatile(v: &Volatile<u16>) -> (r: u16)
    ensures
        r == volatile_value(*v),
{
    v.read()
}

/// Relies on volatile::Volatile::write: a volatile store into the cell at
/// `(row, col)`, leaving every other cell as it was.
#[verifier::external_body]
fn write_volatile(cells: &mut Vec<Vec<Volatile<u16>>>, row: usize, col: usize, value: u16)
    requires
        row < old(cells)@.len(),
        col < old(cells)@[row as int]@.len(),
    ensures
        final(cells)@.len() == old(cells)@.len(),
        forall|r: int| 0 <= r < old(cells)@.len() && r != row ==> final(cells)@[r] == old(cells)@[r],
        final(cells)@[row as int]@.len() == old(cells)@[row as int]@.len(),
        forall|c: int|
            0 <= c < old(cells)@[row as int]@.len() && c != col ==> final(cells)@[row as int]@[c]
                == old(cells)@[row as int]@[c],
        volatile_value(final(cells)@[row as int]@[col as int]) == value,
{
    cells[row][col].write(value)
}

/// One character cell: the code point byte and its attribute byte.
#[derive(Debug, Clone, Copy, PartialEq, Eq, Structural)]
pub struct ScreenChar {
    pub ascii_character: u8,
    pub color_code: ColorCode,
}

/// The 16-bit word a cell is stored as. On the little-endian target the
/// character byte comes first in memory and the attribute byte second, so
/// both are always stored together by a single access.
pub open spec fn cell_word(c: ScreenChar) -> u16 {
    (c.color_code.0 as u16 * 256 + c.ascii_character as u16) as u16
}

/// The cell a stored word stands for.
pub open spec fn cell_of_word(w: u16) -> ScreenChar {
    ScreenChar { ascii_character: (w % 256) as u8, color_code: ColorCode((w / 256) as u8) }
}

proof fn lemma_cell_word_round_trip(c: ScreenChar)
    ensures
        cell_of_word(cell_word(c)) == c,
{
    let a = c.color_code.0 as int;
    let b = c.ascii_character as int;
    assert((a * 256 + b) % 256 == b && (a * 256 + b) / 256 == a) by (nonlinear_arith)
        requires
            0 <= a < 256,
            0 <= b < 256,
    ;
}

fn encode(c: ScreenChar) -> (r: u16)
    ensures
        r == cell_word(c),
{
    c.color_code.0 as u16 * 256 + c.ascii_character as u16
}

fn decode(w: u16) -> (r: ScreenChar)
    ensures
        r == cell_of_word(w),
{
    ScreenChar { ascii_character: (w % 256) as u8, color_code: ColorCode((w / 256) as u8) }
}

/// The screen grid, `BUFFER_HEIGHT` rows of `BUFFER_WIDTH` cells. Every
/// access goes through a volatile load or store, since the display reads
/// the same memory behind the program's back.
pub struct Buffer {
    chars: Vec<Vec<Volatile<u16>>>,
}

/// A grid has the screen's dimensions.
pub open spec fn grid_shape(g: Seq<Seq<ScreenChar>>) -> bool {
    &&& g.len() == BUFFER_HEIGHT
    &&& forall|r: int| 0 <= r < BUFFER_HEIGHT ==> #[trigger] g[r].len() == BUFFER_WIDTH
}

impl View for Buffer {
    type V = Seq<Seq<ScreenChar>>;

    closed spec fn view(&self) -> Seq<Seq<ScreenChar>> {
        Seq::new(
            self.chars@.len(),
            |r: int|
                Seq::new(
                    self.chars@[r]@.len(),
                    |c: int| cell_of_word(volatile_value(self.chars@[r]@[c])),
                ),
        )
    }
}

impl Buffer {
    /// A grid with every cell set to `fill`.
    pub fn new(fill: ScreenChar) -> (r: Buffer)
        ensures
            grid_shape(r@),
            forall|row: int, col: int|
                0 <= row < BUFFER_HEIGHT && 0 <= col < BUFFER_WIDTH ==> #[trigger] r@[row][col]
                    == fill,
    {
        let w = encode(fill);
        proof {
            lemma_cell_word_round_trip(fill);
        }
        let mut chars: Vec<Vec<Volatile<u16>>> = Vec::new();
        let mut row: usize = 0;
        while row < BUFFER_HEIGHT
            invariant
                row <= BUFFER_HEIGHT,
                chars@.len() == row,
                forall|r: int| 0 <= r < row ==> (#[trigger] chars@[r])@.len() == BUFFER_WIDTH,
                forall|r: int, c: int|
                    0 <= r < row && 0 <= c < BUFFER_WIDTH ==> volatile_value(
                        #[trigger] chars@[r]@[c],
                    ) == w,
            decreases BUFFER_HEIGHT - row,
        {
            let mut line: Vec<Volatile<u16>> = Vec::new();
            let mut col: usize = 0;
            while col < BUFFER_WIDTH
                invariant
                    col <= BUFFER_WIDTH,
                    line@.len() == col,
                    forall|c: int| 0 <= c < col ==> volatile_value(#[trigger] line@[c]) == w,
                decreases BUFFER_WIDTH - col,
            {
                line.push(new_volatile(w));
                col = col + 1;
            }
            chars.push(line);
            row = row + 1;
        }
        Buffer { chars }
    }

    /// Volatile load of the cell at `(row, col)`.
    pub fn read(&self, row: usize, col: usize) -> (r: ScreenChar)
        requires
            grid_shape(self@),
            row < BUFFER_HEIGHT,
            col < BUFFER_WIDTH,
        ensures
            r == self@[row as int][col as int],
    {
        assert(self@[row as int].len() == BUFFER_WIDTH);
        decode(read_volatile(&self.chars[row][col]))
    }

    /// Volatile store of `c` into the cell at `(row, col)`; no other cell
    /// changes.
    pub fn write(&mut self, row: usize, col: usize, c: ScreenChar)
        requires
            grid_shape(old(self)@),
            row < BUFFER_HEIGHT,
            col < BUFFER_WIDTH,
        ensures
            final(self)@ == old(self)@.update(
                row as int,
                old(self)@[row as int].update(col as int, c),
            ),
    {
        assert(old(self)@[row as int].len() == BUFFER_WIDTH);
        let w = encode(c);
        proof {
            lemma_cell_word_round_trip(c);
        }
        write_volatile(&mut self.chars, row, col, w);
        assert(self@ =~~= old(self)@.update(row as int, old(self)@[row as int].update(col as int, c)));
    }
}

} // verus!
