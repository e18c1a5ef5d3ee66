//! Text output on the VGA character grid: 25 rows of 80 cells, each cell a
//! character and its colours. Text is written on the bottom row and pushed
//! upwards a row at a time.

use vstd::prelude::*;
use vstd::string::StringSliceAdditionalSpecFns;
use volatile::Volatile;

verus! {

/// `volatile::Volatile`: a value that is read and written with volatile
/// accesses only, so that the compiler reorders no access and leaves none
/// out. The type is taken as it is: nothing of it is visible here but
/// through `cell_read` and `cell_write`.
#[verifier::external_type_specification]
#[verifier::external_body]
#[verifier::reject_recursive_types(T)]
pub struct ExVolatile<T: Copy>(Volatile<T>);

/// The value that a cell holds. What is known of it is what `cell_read`
/// and `cell_write` say.
pub uninterp spec fn cell_value(cell: Volatile<u16>) -> u16;

/// Calls `Volatile::read`. Taken on trust: the result is a copy of the
/// value the cell holds. This is so of the text buffer, as of ordinary
/// memory: nothing but the processor writes to it.
#[verifier::external_body]
fn cell_read(cell: &Volatile<u16>) -> (v: u16)
    ensures
        v == cell_value(*cell),
{
    cell.read()
}

/// Calls `Volatile::write`. Taken on trust: the cell then holds the value
/// written. No other cell is touched: the call is given this cell alone.
#[verifier::external_body]
fn cell_write(cell: &mut Volatile<u16>, v: u16)
    ensures
        cell_value(*final(cell)) == v,
{
    cell.write(v)
}

/// The sixteen colours of text mode.
#[derive(Clone, Copy, Debug, PartialEq, Eq, Structural)]
pub enum Color {
    Black,
    Blue,
    Green,
    Cyan,
    Red,
    Magenta,
    Brown,
    LightGray,
    DarkGray,
    LightBlue,
    LightGreen,
    LightCyan,
    LightRed,
    Pink,
    Yellow,
    White,
}

impl Color {
    /// The number of the colour.
    pub open spec fn spec_code(self) -> u8 {
        match self {
            Color::Black => 0,
            Color::Blue => 1,
            Color::Green => 2,
            Color::Cyan => 3,
            Color::Red => 4,
            Color::Magenta => 5,
            Color::Brown => 6,
            Color::LightGray => 7,
            Color::DarkGray => 8,
            Color::LightBlue => 9,
            Color::LightGreen => 10,
            Color::LightCyan => 11,
            Color::LightRed => 12,
            Color::Pink => 13,
            Color::Yellow => 14,
            Color::White => 15,
        }
    }

    /// The number of the colour.
    #[verifier::when_used_as_spec(spec_code)]
    pub fn code(self) -> (code: u8)
        ensures
            code == self.spec_code(),
            code < 16,
    {
        match self {
            Color::Black => 0,
            Color::Blue => 1,
            Color::Green => 2,
            Color::Cyan => 3,
            Color::Red => 4,
            Color::Magenta => 5,
            Color::Brown => 6,
            Color::LightGray => 7,
            Color::DarkGray => 8,
            Color::LightBlue => 9,
            Color::LightGreen => 10,
            Color::LightCyan => 11,
            Color::LightRed => 12,
            Color::Pink => 13,
            Color::Yellow => 14,
            Color::White => 15,
        }
    }
}

/// The colours of a cell: the background in the high four bits, the
/// foreground in the low four.
#[derive(Clone, Copy, Debug, PartialEq, Eq, Structural)]
pub struct ColorCode(pub u8);

proof fn lemma_color_nibbles(fg: u8, bg: u8)
    by (bit_vector)
    requires
        fg < 16,
        bg < 16,
    ensures
        ((bg << 4) | fg) & 0x0f == fg,
        ((bg << 4) | fg) >> 4 == bg,
        ((bg << 4) | fg) == bg * 16 + fg,
{
}

impl ColorCode {
    /// The colours of a cell with foreground `fg` on background `bg`.
    pub open spec fn combine(fg: Color, bg: Color) -> ColorCode {
        ColorCode((bg.spec_code() << 4) | fg.spec_code())
    }

    /// The number of the foreground colour.
    pub open spec fn foreground(self) -> u8 {
        self.0 & 0x0f
    }

    /// The number of the background colour.
    pub open spec fn background(self) -> u8 {
        self.0 >> 4
    }

    /// The colours of a cell with foreground `fg` on background `bg`.
    pub fn new(fg: Color, bg: Color) -> (code: ColorCode)
        ensures
            code == Self::combine(fg, bg),
            code.0 == bg.spec_code() * 16 + fg.spec_code(),
            code.foreground() == fg.spec_code(),
            code.background() == bg.spec_code(),
    {
        let f: u8 = fg.code();
        let b: u8 = bg.code();
        proof {
            lemma_color_nibbles(f, b);
        }
        ColorCode((b << 4) | f)
    }
}

/// What a cell shows.
#[derive(Clone, Copy, Debug, PartialEq, Eq, Structural)]
pub struct VgaChar {
    pub char: u8,
    pub color_code: ColorCode,
}

proof fn lemma_cell_halves(low: u8, high: u8)
    by (bit_vector)
    ensures
        ((((high as u16) << 8) | (low as u16)) & 0xff) as u8 == low,
        ((((high as u16) << 8) | (low as u16)) >> 8) as u8 == high,
        (((high as u16) << 8) | (low as u16)) == high * 256 + low,
{
}

proof fn lemma_cell_joined(cell: u16)
    by (bit_vector)
    ensures
        ((((cell >> 8) as u8) as u16) << 8) | (((cell & 0xff) as u8) as u16) == cell,
{
}

impl VgaChar {
    /// The cell as it lies in video memory: the character in the low byte,
    /// the colours in the high byte.
    pub open spec fn pack(self) -> u16 {
        ((self.color_code.0 as u16) << 8) | (self.char as u16)
    }

    /// What a cell of video memory shows.
    pub open spec fn unpack(cell: u16) -> VgaChar {
        VgaChar { char: (cell & 0xff) as u8, color_code: ColorCode((cell >> 8) as u8) }
    }

    /// The cell of video memory that shows this.
    pub fn encode(&self) -> (cell: u16)
        ensures
            cell == self.pack(),
            cell == self.color_code.0 * 256 + self.char,
            Self::unpack(cell) == *self,
    {
        proof {
            lemma_cell_halves(self.char, self.color_code.0);
        }
        ((self.color_code.0 as u16) << 8) | (self.char as u16)
    }

    /// What a cell of video memory shows.
    pub fn decode(cell: u16) -> (shown: VgaChar)
        ensures
            shown == Self::unpack(cell),
    {
        VgaChar {
            char: #[verifier::truncate] ((cell & 0xff) as u8),
            color_code: ColorCode(#[verifier::truncate] ((cell >> 8) as u8)),
        }
    }
}

/// A cell of video memory and what it shows stand for each other: each is
/// found again from the other.
pub proof fn lemma_cell_round_trip(shown: VgaChar, cell: u16)
    ensures
        VgaChar::unpack(shown.pack()) == shown,
        VgaChar::unpack(cell).pack() == cell,
{
    lemma_cell_halves(shown.char, shown.color_code.0);
    lemma_cell_joined(cell);
}

/// Cells in a row.
pub const WIDTH: usize = 80;

/// Rows on the screen.
pub const HEIGHT: usize = 25;

/// What the screen shows, row by row from the top.
pub type Grid = Seq<Seq<VgaChar>>;

/// A row of blanks in the given colours.
pub open spec fn blank_row(color_code: ColorCode) -> Seq<VgaChar> {
    Seq::new(WIDTH as nat, |c: int| VgaChar { char: 0x20, color_code })
}

/// The screen after every row has moved up by one: the top row is gone,
/// the bottom row is blank.
pub open spec fn scrolled(grid: Grid, color_code: ColorCode) -> Grid {
    Seq::new(
        HEIGHT as nat,
        |r: int|
            if r < HEIGHT - 1 {
                grid[r + 1]
            } else {
                blank_row(color_code)
            },
    )
}

/// The screen and the column of the cursor after the byte `c` has been
/// written. A line feed moves everything up and puts the cursor at the
/// start of the row. Any other byte is shown at the cursor, on the bottom
/// row, and the cursor moves on; where the row was full, everything moves
/// up first.
pub open spec fn after_char(grid: Grid, col: usize, color_code: ColorCode, c: u8) -> (
    Grid,
    usize,
) {
    if c == 0x0a {
        (scrolled(grid, color_code), 0)
    } else {
        let (g, at) = if col >= WIDTH {
            (scrolled(grid, color_code), 0usize)
        } else {
            (grid, col)
        };
        let bottom = g[HEIGHT - 1].update(at as int, VgaChar { char: c, color_code });
        (g.update(HEIGHT - 1, bottom), (at + 1) as usize)
    }
}

/// The screen and the column of the cursor after the bytes of `text` have
/// been written, one after the other.
pub open spec fn after_text(grid: Grid, col: usize, color_code: ColorCode, text: Seq<u8>) -> (
    Grid,
    usize,
)
    decreases text.len(),
{
    if text.len() == 0 {
        (grid, col)
    } else {
        let (g, at) = after_text(grid, col, color_code, text.drop_last());
        after_char(g, at, color_code, text.last())
    }
}

/// Writes text to a character grid.
pub struct Writer<'a> {
    pub buf: &'a mut [[Volatile<u16>; 80]; 25],
    pub col: usize,
    pub color_code: ColorCode,
}

impl<'a> Writer<'a> {
    /// What the screen shows: what each cell of the buffer holds, by row
    /// and column.
    pub open spec fn grid(&self) -> Grid {
        Seq::new(
            HEIGHT as nat,
            |r: int|
                Seq::new(WIDTH as nat, |c: int| VgaChar::unpack(cell_value(self.buf@[r]@[c]))),
        )
    }

    /// What the cell in row `row`, column `col` shows.
    pub fn char_at(&self, row: usize, col: usize) -> (shown: VgaChar)
        requires
            row < HEIGHT,
            col < WIDTH,
        ensures
            shown == self.grid()[row as int][col as int],
    {
        VgaChar::decode(cell_read(&self.buf[row][col]))
    }

    /// Moves every row up by one, blanks the bottom row and puts the
    /// cursor at its start.
    pub fn new_line(&mut self)
        ensures
            final(self).grid() == scrolled(old(self).grid(), old(self).color_code),
            final(self).col == 0,
            final(self).color_code == old(self).color_code,
    {
        let mut row: usize = 1;
        while row < HEIGHT
            invariant
                1 <= row <= HEIGHT,
                self.col == old(self).col,
                self.color_code == old(self).color_code,
                forall|r: int, c: int|
                    0 <= r < row - 1 && 0 <= c < WIDTH ==> cell_value(#[trigger] self.buf@[r]@[c])
                        == cell_value(old(self).buf@[r + 1]@[c]),
                forall|r: int, c: int|
                    row - 1 <= r < HEIGHT && 0 <= c < WIDTH ==> cell_value(
                        #[trigger] self.buf@[r]@[c],
                    ) == cell_value(old(self).buf@[r]@[c]),
            decreases HEIGHT - row,
        {
            let mut col: usize = 0;
            while col < WIDTH
                invariant
                    1 <= row < HEIGHT,
                    col <= WIDTH,
                    self.col == old(self).col,
                    self.color_code == old(self).color_code,
                    forall|r: int, c: int|
                        0 <= r < row - 1 && 0 <= c < WIDTH ==> cell_value(
                            #[trigger] self.buf@[r]@[c],
                        ) == cell_value(old(self).buf@[r + 1]@[c]),
                    forall|c: int|
                        0 <= c < col ==> cell_value(#[trigger] self.buf@[row - 1]@[c])
                            == cell_value(old(self).buf@[row as int]@[c]),
                    forall|r: int, c: int|
                        row <= r < HEIGHT && 0 <= c < WIDTH ==> cell_value(
                            #[trigger] self.buf@[r]@[c],
                        ) == cell_value(old(self).buf@[r]@[c]),
                decreases WIDTH - col,
            {
                let character = cell_read(&self.buf[row][col]);
                cell_write(&mut self.buf[row - 1][col], character);
                col += 1;
            }
            row += 1;
        }
        let blank = VgaChar { char: 0x20, color_code: self.color_code }.encode();
        let mut col: usize = 0;
        while col < WIDTH
            invariant
                col <= WIDTH,
                self.col == old(self).col,
                self.color_code == old(self).color_code,
                VgaChar::unpack(blank) == (VgaChar { char: 0x20, color_code: self.color_code }),
                forall|r: int, c: int|
                    0 <= r < HEIGHT - 1 && 0 <= c < WIDTH ==> cell_value(
                        #[trigger] self.buf@[r]@[c],
                    ) == cell_value(old(self).buf@[r + 1]@[c]),
                forall|c: int|
                    0 <= c < col ==> cell_value(#[trigger] self.buf@[HEIGHT - 1]@[c]) == blank,
            decreases WIDTH - col,
        {
            cell_write(&mut self.buf[HEIGHT - 1][col], blank);
            col += 1;
        }
        self.col = 0;
        assert(self.grid() =~~= scrolled(old(self).grid(), old(self).color_code));
    }

    /// Writes one byte at the cursor.
    pub fn do_write_char(&mut self, c: u8)
        ensures
            (final(self).grid(), final(self).col) == after_char(
                old(self).grid(),
                old(self).col,
                old(self).color_code,
                c,
            ),
            final(self).color_code == old(self).color_code,
            final(self).col <= WIDTH,
    {
        if c == 0x0a {
            self.new_line();
        } else {
            if self.col >= WIDTH {
                self.new_line();
            }
            let ghost before = self.grid();
            // always write on the bottom row
            let row = HEIGHT - 1;
            let col = self.col;
            cell_write(
                &mut self.buf[row][col],
                VgaChar { char: c, color_code: self.color_code }.encode(),
            );
            self.col += 1;
            assert(self.grid() =~~= before.update(
                HEIGHT - 1,
                before[HEIGHT - 1].update(col as int, VgaChar { char: c, color_code: self.color_code }),
            ));
        }
    }

    /// Writes the bytes of `s`, one after the other.
    pub fn do_write_str(&mut self, s: &str)
        ensures
            (final(self).grid(), final(self).col) == after_text(
                old(self).grid(),
                old(self).col,
                old(self).color_code,
                s.spec_bytes(),
            ),
            final(self).color_code == old(self).color_code,
    {
        let bytes = s.as_bytes();
        let mut i: usize = 0;
        while i < bytes.len()
            invariant
                i <= bytes.len(),
                bytes@ == s.spec_bytes(),
                self.color_code == old(self).color_code,
                (self.grid(), self.col) == after_text(
                    old(self).grid(),
                    old(self).col,
                    old(self).color_code,
                    bytes@.take(i as int),
                ),
            decreases bytes.len() - i,
        {
            self.do_write_char(bytes[i]);
            i += 1;
            assert(bytes@.take(i as int).drop_last() =~= bytes@.take(i - 1));
        }
        assert(bytes@.take(i as int) =~= bytes@);
    }
}

} // verus!
