//! The character grid, the colour encoding, and the writer state machine.

use vstd::prelude::*;
use vstd::string::StringSliceAdditionalSpecFns;

verus! {

/// Number of character columns in the grid.
pub const VGA_WIDTH: usize = 80;

/// Number of character rows in the grid.
pub const VGA_HEIGHT: usize = 25;

/// The line-feed byte: commits the current row and starts a fresh one.
pub const LINE_FEED: u8 = 0x0a;

/// Glyph substituted for any byte that is neither printable nor a line feed.
pub const UNPRINTABLE: u8 = 0xfe;

/// The blank glyph (ASCII space) used when clearing cells.
pub const BLANK: u8 = 0x20;

/// The sixteen colours of the text-mode palette.
#[derive(Copy, Clone, PartialEq, Eq, Structural, Debug)]
pub enum VgaColour {
    Black,
    Blue,
    Green,
    Cyan,
    Red,
    Magenta,
    Brown,
    LightGrey,
    DarkGrey,
    LightBlue,
    LightGreen,
    LightCyan,
    LightRed,
    LightMagenta,
    Yellow,
    White,
}

impl VgaColour {
    /// The 4-bit palette index of this colour.
    pub open spec fn spec_code(self) -> u8 {
        match self {
            VgaColour::Black => 0,
            VgaColour::Blue => 1,
            VgaColour::Green => 2,
            VgaColour::Cyan => 3,
            VgaColour::Red => 4,
            VgaColour::Magenta => 5,
            VgaColour::Brown => 6,
            VgaColour::LightGrey => 7,
            VgaColour::DarkGrey => 8,
            VgaColour::LightBlue => 9,
            VgaColour::LightGreen => 10,
            VgaColour::LightCyan => 11,
            VgaColour::LightRed => 12,
            VgaColour::LightMagenta => 13,
            VgaColour::Yellow => 14,
            VgaColour::White => 15,
        }
    }

    /// Returns the 4-bit palette index of this colour.
    pub fn code(self) -> (c: u8)
        ensures
            c == self.spec_code(),
            c <= 15,
    {
        match self {
            VgaColour::Black => 0,
            VgaColour::Blue => 1,
            VgaColour::Green => 2,
            VgaColour::Cyan => 3,
            VgaColour::Red => 4,
            VgaColour::Magenta => 5,
            VgaColour::Brown => 6,
            VgaColour::LightGrey => 7,
            VgaColour::DarkGrey => 8,
            VgaColour::LightBlue => 9,
            VgaColour::LightGreen => 10,
            VgaColour::LightCyan => 11,
            VgaColour::LightRed => 12,
            VgaColour::LightMagenta => 13,
            VgaColour::Yellow => 14,
            VgaColour::White => 15,
        }
    }
}

/// A foreground/background colour pair packed into one attribute byte:
/// the background index in the high nibble, the foreground in the low one.
#[derive(Copy, Clone, PartialEq, Eq, Structural, Debug)]
pub struct ColourCode(pub u8);

impl ColourCode {
    /// The packed attribute byte for a foreground/background pair.
    pub open spec fn spec_new(fg: VgaColour, bg: VgaColour) -> ColourCode {
        ColourCode((bg.spec_code() << 4) | fg.spec_code())
    }

    /// Packs a foreground and a background colour into one attribute byte.
    pub fn new(fg: VgaColour, bg: VgaColour) -> (c: ColourCode)
        ensures
            c == ColourCode::spec_new(fg, bg),
    {
        ColourCode((bg.code() << 4) | fg.code())
    }
}

/// One cell of the grid: a glyph byte and its colour attribute.
#[derive(Copy, Clone, PartialEq, Eq, Structural, Debug)]
pub struct VgaChar {
    pub ascii_character: u8,
    pub colour: ColourCode,
}

/// The character grid, stored row-major: the cell at `(row, col)` lives at
/// index `row * VGA_WIDTH + col`.
pub struct Buffer {
    pub chars: Vec<VgaChar>,
}

impl Buffer {
    /// The buffer holds exactly one cell per grid position.
    pub open spec fn wf(self) -> bool {
        self.chars@.len() == VGA_HEIGHT * VGA_WIDTH
    }

    /// The grid as a sequence of rows, each a sequence of cells.
    pub open spec fn grid(self) -> Seq<Seq<VgaChar>> {
        Seq::new(
            VGA_HEIGHT as nat,
            |r: int| Seq::new(VGA_WIDTH as nat, |c: int| self.chars@[r * VGA_WIDTH + c]),
        )
    }

    /// Overwrites the single cell at `(row, col)`.
    fn put(&mut self, row: usize, col: usize, ch: VgaChar)
        requires
            old(self).wf(),
            row < VGA_HEIGHT,
            col < VGA_WIDTH,
        ensures
            final(self).wf(),
            final(self).grid() == written(old(self).grid(), row as int, col as int, ch),
        no_unwind
    {
        let idx = row * VGA_WIDTH + col;
        self.chars[idx] = ch;
        proof {
            assert forall|r: int, c: int|
                0 <= r < VGA_HEIGHT && 0 <= c < VGA_WIDTH implies self.grid()[r][c] == written(
                old(self).grid(),
                row as int,
                col as int,
                ch,
            )[r][c] by {
                if r * VGA_WIDTH + c == row * VGA_WIDTH + col {
                    lemma_flat_index_injective(r, c, row as int, col as int);
                }
            }
            assert(self.grid() =~~= written(old(self).grid(), row as int, col as int, ch));
        }
    }

    /// Reads the cell at `(row, col)`.
    pub fn cell(&self, row: usize, col: usize) -> (ch: VgaChar)
        requires
            self.wf(),
            row < VGA_HEIGHT,
            col < VGA_WIDTH,
        ensures
            ch == self.grid()[row as int][col as int],
    {
        self.chars[row * VGA_WIDTH + col]
    }
}

/// Two in-range flat indices agree only on the same grid position.
proof fn lemma_flat_index_injective(r1: int, c1: int, r2: int, c2: int)
    requires
        0 <= c1 < VGA_WIDTH,
        0 <= c2 < VGA_WIDTH,
        r1 * VGA_WIDTH + c1 == r2 * VGA_WIDTH + c2,
    ensures
        r1 == r2,
        c1 == c2,
{
    assert(r1 == r2 && c1 == c2) by (nonlinear_arith)
        requires
            0 <= c1 < VGA_WIDTH,
            0 <= c2 < VGA_WIDTH,
            r1 * VGA_WIDTH + c1 == r2 * VGA_WIDTH + c2,
    ;
}

/// The grid `g` with the cell at `(row, col)` replaced by `ch`.
pub open spec fn written(g: Seq<Seq<VgaChar>>, row: int, col: int, ch: VgaChar) -> Seq<
    Seq<VgaChar>,
> {
    g.update(row, g[row].update(col, ch))
}

/// The abstract state of the console: the visible grid and the insertion
/// column on the bottom row. The active row is a design constant
/// (`VGA_HEIGHT - 1`), so it is not part of the state.
#[verifier::ext_equal]
pub struct ConsoleState {
    pub grid: Seq<Seq<VgaChar>>,
    pub column: nat,
}

/// The abstract state has the fixed grid geometry and an in-range column.
pub open spec fn wf_state(s: ConsoleState) -> bool {
    &&& s.grid.len() == VGA_HEIGHT
    &&& forall|r: int| 0 <= r < VGA_HEIGHT ==> (#[trigger] s.grid[r]).len() == VGA_WIDTH
    &&& s.column <= VGA_WIDTH
}

/// A byte is printable when it lies in the inclusive ASCII range 0x20..0x7e.
pub open spec fn is_printable(b: u8) -> bool {
    BLANK <= b <= 0x7e
}

/// The total sanitizing map: printable bytes and the line feed pass through,
/// every other byte becomes the placeholder glyph.
pub open spec fn sanitize_spec(b: u8) -> u8 {
    if is_printable(b) || b == LINE_FEED {
        b
    } else {
        UNPRINTABLE
    }
}

/// A blank cell: a space glyph in the given colour.
pub open spec fn blank_char(colour: ColourCode) -> VgaChar {
    VgaChar { ascii_character: BLANK, colour }
}

/// A full row of blank cells.
pub open spec fn blank_row(colour: ColourCode) -> Seq<VgaChar> {
    Seq::new(VGA_WIDTH as nat, |c: int| blank_char(colour))
}

/// A fully blank grid.
pub open spec fn blank_grid(colour: ColourCode) -> Seq<Seq<VgaChar>> {
    Seq::new(VGA_HEIGHT as nat, |r: int| blank_row(colour))
}

/// The grid after one scroll step: every row takes the content of the row
/// below it, and the bottom row becomes blank. The top row is discarded.
pub open spec fn scrolled(g: Seq<Seq<VgaChar>>, colour: ColourCode) -> Seq<Seq<VgaChar>> {
    Seq::new(
        VGA_HEIGHT as nat,
        |r: int|
            if r < VGA_HEIGHT - 1 {
                g[r + 1]
            } else {
                blank_row(colour)
            },
    )
}

/// A line break: scroll the grid and reset the column.
pub open spec fn scroll_spec(s: ConsoleState, colour: ColourCode) -> ConsoleState {
    ConsoleState { grid: scrolled(s.grid, colour), column: 0 }
}

/// Clearing the screen: a blank grid and a reset column, whatever came before.
pub open spec fn clear_screen_spec(s: ConsoleState, colour: ColourCode) -> ConsoleState {
    ConsoleState { grid: blank_grid(colour), column: 0 }
}

/// One step of the writer state machine on a raw byte: a line feed always
/// scrolls; any other byte wraps first if the row is full, then lands at the
/// insertion column of the bottom row and advances it.
pub open spec fn write_byte_spec(s: ConsoleState, colour: ColourCode, b: u8) -> ConsoleState {
    if b == LINE_FEED {
        scroll_spec(s, colour)
    } else {
        let t = if s.column >= VGA_WIDTH {
            scroll_spec(s, colour)
        } else {
            s
        };
        ConsoleState {
            grid: written(
                t.grid,
                VGA_HEIGHT - 1,
                t.column as int,
                VgaChar { ascii_character: b, colour },
            ),
            column: t.column + 1,
        }
    }
}

/// The writer state machine folded over a byte sequence, sanitizing each
/// byte before it is written.
pub open spec fn write_bytes_spec(s: ConsoleState, colour: ColourCode, bs: Seq<u8>) -> ConsoleState
    decreases bs.len(),
{
    if bs.len() == 0 {
        s
    } else {
        write_bytes_spec(write_byte_spec(s, colour, sanitize_spec(bs[0])), colour, bs.drop_first())
    }
}

/// Maps any byte to a displayable one: printable bytes and the line feed
/// pass through, every other byte becomes the placeholder glyph. Total: no
/// byte is ever rejected.
pub fn sanitize(b: u8) -> (r: u8)
    ensures
        r == sanitize_spec(b),
{
    if (BLANK <= b && b <= 0x7e) || b == LINE_FEED {
        b
    } else {
        UNPRINTABLE
    }
}

/// Appending one byte to a written sequence is one more sanitized step of
/// the state machine.
pub proof fn lemma_write_bytes_snoc(s: ConsoleState, colour: ColourCode, bs: Seq<u8>, b: u8)
    ensures
        write_bytes_spec(s, colour, bs.push(b)) == write_byte_spec(
            write_bytes_spec(s, colour, bs),
            colour,
            sanitize_spec(b),
        ),
    decreases bs.len(),
{
    if bs.len() == 0 {
        assert(bs.push(b)[0] == b);
        assert(bs.push(b).drop_first() =~= Seq::<u8>::empty());
        let t = write_byte_spec(s, colour, sanitize_spec(b));
        assert(write_bytes_spec(t, colour, Seq::<u8>::empty()) == t);
        assert(write_bytes_spec(s, colour, bs.push(b)) == write_bytes_spec(
            t,
            colour,
            bs.push(b).drop_first(),
        ));
        assert(write_bytes_spec(s, colour, bs) == s);
    } else {
        assert(bs.push(b)[0] == bs[0]);
        assert(bs.push(b).drop_first() =~= bs.drop_first().push(b));
        let t = write_byte_spec(s, colour, sanitize_spec(bs[0]));
        lemma_write_bytes_snoc(t, colour, bs.drop_first(), b);
        assert(write_bytes_spec(s, colour, bs.push(b)) == write_bytes_spec(
            t,
            colour,
            bs.drop_first().push(b),
        ));
        assert(write_bytes_spec(s, colour, bs) == write_bytes_spec(t, colour, bs.drop_first()));
    }
}

/// The console writer: owns the grid, the insertion column on the bottom
/// row, and the colour every written or blanked cell receives.
pub struct Writer {
    column: usize,
    row: usize,
    colour: ColourCode,
    buffer: Buffer,
}

impl View for Writer {
    type V = ConsoleState;

    closed spec fn view(&self) -> ConsoleState {
        ConsoleState { grid: self.buffer.grid(), column: self.column as nat }
    }
}

impl Writer {
    /// The buffer covers the whole grid, the active row is pinned to the
    /// bottom one, and the column never passes the row's end.
    #[verifier::type_invariant]
    spec fn wf(self) -> bool {
        &&& self.buffer.wf()
        &&& self.row == VGA_HEIGHT - 1
        &&& self.column <= VGA_WIDTH
    }

    /// The colour applied to written and blanked cells; fixed at
    /// construction.
    pub closed spec fn spec_colour(self) -> ColourCode {
        self.colour
    }

    /// Creates a writer over a blank grid, with the cursor at the start of
    /// the bottom row.
    pub fn new(colour: ColourCode) -> (w: Writer)
        ensures
            w@.grid == blank_grid(colour),
            w@.column == 0,
            w.spec_colour() == colour,
            wf_state(w@),
    {
        let mut chars: Vec<VgaChar> = Vec::new();
        let blank = VgaChar { ascii_character: BLANK, colour };
        let total = VGA_HEIGHT * VGA_WIDTH;
        while chars.len() < total
            invariant
                chars@.len() <= total,
                total == VGA_HEIGHT * VGA_WIDTH,
                blank == blank_char(colour),
                forall|i: int| 0 <= i < chars@.len() ==> chars@[i] == blank_char(colour),
            decreases total - chars@.len(),
        {
            chars.push(blank);
        }
        let w = Writer { column: 0, row: VGA_HEIGHT - 1, colour, buffer: Buffer { chars } };
        proof {
            assert(w@.grid =~~= blank_grid(colour));
        }
        w
    }

    /// The current insertion column on the bottom row.
    pub fn column(&self) -> (c: usize)
        ensures
            c == self@.column,
            c <= VGA_WIDTH,
    {
        proof {
            use_type_invariant(self);
        }
        self.column
    }

    /// Returns the colour applied to written and blanked cells.
    pub fn colour(&self) -> (c: ColourCode)
        ensures
            c == self.spec_colour(),
    {
        self.colour
    }

    /// Reads the cell at `(row, col)` of the grid.
    pub fn char_at(&self, row: usize, col: usize) -> (ch: VgaChar)
        requires
            row < VGA_HEIGHT,
            col < VGA_WIDTH,
        ensures
            ch == self@.grid[row as int][col as int],
    {
        proof {
            use_type_invariant(self);
        }
        self.buffer.cell(row, col)
    }

    /// Moves every row's content one row up (discarding the top row) and
    /// blanks the bottom row. The insertion column is untouched.
    pub fn shift_lines_up(&mut self)
        ensures
            final(self)@.grid == scrolled(old(self)@.grid, old(self).spec_colour()),
            final(self)@.column == old(self)@.column,
            final(self).spec_colour() == old(self).spec_colour(),
            wf_state(final(self)@),
    {
        proof {
            use_type_invariant(&*self);
        }
        let ghost g0 = self.buffer.chars@;
        let blank = VgaChar { ascii_character: BLANK, colour: self.colour };
        let limit = (VGA_HEIGHT - 1) * VGA_WIDTH;
        let total = VGA_HEIGHT * VGA_WIDTH;
        let mut k: usize = 0;
        while k < limit
            invariant
                self.wf(),
                self.column == old(self).column,
                self.row == old(self).row,
                self.colour == old(self).colour,
                g0 == old(self).buffer.chars@,
                limit == (VGA_HEIGHT - 1) * VGA_WIDTH,
                k <= limit,
                forall|j: int| 0 <= j < k ==> self.buffer.chars@[j] == g0[j + VGA_WIDTH],
                forall|j: int|
                    k <= j < VGA_HEIGHT * VGA_WIDTH ==> self.buffer.chars@[j] == g0[j],
            decreases limit - k,
        {
            let moved = self.buffer.chars[k + VGA_WIDTH];
            self.buffer.chars[k] = moved;
            k = k + 1;
        }
        let mut k: usize = limit;
        while k < total
            invariant
                self.wf(),
                self.column == old(self).column,
                self.row == old(self).row,
                self.colour == old(self).colour,
                g0 == old(self).buffer.chars@,
                blank == blank_char(old(self).spec_colour()),
                limit == (VGA_HEIGHT - 1) * VGA_WIDTH,
                total == VGA_HEIGHT * VGA_WIDTH,
                limit <= k <= total,
                forall|j: int| 0 <= j < limit ==> self.buffer.chars@[j] == g0[j + VGA_WIDTH],
                forall|j: int|
                    limit <= j < k ==> self.buffer.chars@[j] == blank_char(
                        old(self).spec_colour(),
                    ),
                forall|j: int| k <= j < total ==> self.buffer.chars@[j] == g0[j],
            decreases total - k,
        {
            self.buffer.chars[k] = blank;
            k = k + 1;
        }
        proof {
            let colour = old(self).spec_colour();
            assert forall|r: int, c: int|
                0 <= r < VGA_HEIGHT && 0 <= c < VGA_WIDTH implies self.buffer.grid()[r][c]
                == scrolled(old(self)@.grid, colour)[r][c] by {
                if r < VGA_HEIGHT - 1 {
                    assert(r * VGA_WIDTH + c < (VGA_HEIGHT - 1) * VGA_WIDTH);
                    assert((r + 1) * VGA_WIDTH + c == r * VGA_WIDTH + c + VGA_WIDTH);
                } else {
                    assert(r * VGA_WIDTH + c >= (VGA_HEIGHT - 1) * VGA_WIDTH);
                }
            }
            assert(self.buffer.grid() =~~= scrolled(old(self)@.grid, colour));
        }
    }

    /// Commits the current line: resets the column to the start of the row
    /// and scrolls. A line break always scrolls, even on an empty row.
    pub fn new_line(&mut self)
        ensures
            final(self)@ == scroll_spec(old(self)@, old(self).spec_colour()),
            final(self).spec_colour() == old(self).spec_colour(),
            wf_state(final(self)@),
    {
        proof {
            use_type_invariant(&*self);
        }
        self.column = 0;
        self.shift_lines_up();
    }

    /// Writes a string: every byte is sanitized and then dispatched to the
    /// byte-writing state machine in sequence. Total: any byte sequence is
    /// accepted, and each byte has an immediate, visible effect.
    pub fn write_string(&mut self, s: &str)
        ensures
            final(self)@ == write_bytes_spec(old(self)@, old(self).spec_colour(), s.spec_bytes()),
            final(self).spec_colour() == old(self).spec_colour(),
            wf_state(final(self)@),
    {
        proof {
            use_type_invariant(&*self);
        }
        let bytes = s.as_bytes();
        let n = bytes.len();
        let mut i: usize = 0;
        while i < n
            invariant
                n == bytes@.len(),
                i <= n,
                bytes@ == s.spec_bytes(),
                self@ == write_bytes_spec(
                    old(self)@,
                    old(self).spec_colour(),
                    bytes@.take(i as int),
                ),
                self.spec_colour() == old(self).spec_colour(),
                wf_state(self@),
            decreases n - i,
        {
            let b = sanitize(bytes[i]);
            self.write_byte(b);
            proof {
                assert(bytes@.take(i + 1) =~= bytes@.take(i as int).push(bytes@[i as int]));
                lemma_write_bytes_snoc(
                    old(self)@,
                    old(self).spec_colour(),
                    bytes@.take(i as int),
                    bytes@[i as int],
                );
            }
            i = i + 1;
        }
        proof {
            assert(bytes@.take(n as int) =~= bytes@);
        }
    }

    /// Processes one raw byte: a line feed scrolls; any other byte is placed
    /// at the insertion column of the bottom row (after a scroll if the row
    /// is already full) and the column advances.
    ///
    /// This is the raw glyph path: the byte is written as it is, without the
    /// sanitizing substitution that `write_string` applies.
    pub fn write_byte(&mut self, byte: u8)
        ensures
            final(self)@ == write_byte_spec(old(self)@, old(self).spec_colour(), byte),
            final(self).spec_colour() == old(self).spec_colour(),
            wf_state(final(self)@),
    {
        proof {
            use_type_invariant(&*self);
        }
        if byte == LINE_FEED {
            self.new_line();
        } else {
            if self.column >= VGA_WIDTH {
                self.new_line();
            }
            proof {
                use_type_invariant(&*self);
            }
            let row = self.row;
            let col = self.column;
            self.buffer.put(row, col, VgaChar { ascii_character: byte, colour: self.colour });
            self.column = col + 1;
        }
    }

    /// Blanks every cell of the grid and resets the cursor to the start of
    /// the bottom row.
    pub fn clear_screen(&mut self)
        ensures
            final(self)@ == clear_screen_spec(old(self)@, old(self).spec_colour()),
            final(self).spec_colour() == old(self).spec_colour(),
            wf_state(final(self)@),
    {
        proof {
            use_type_invariant(&*self);
        }
        self.column = 0;
        self.row = VGA_HEIGHT - 1;
        let blank = VgaChar { ascii_character: BLANK, colour: self.colour };
        let total = VGA_HEIGHT * VGA_WIDTH;
        let mut k: usize = 0;
        while k < total
            invariant
                self.wf(),
                self.column == 0,
                self.colour == old(self).colour,
                blank == blank_char(old(self).spec_colour()),
                total == VGA_HEIGHT * VGA_WIDTH,
                k <= total,
                forall|j: int|
                    0 <= j < k ==> self.buffer.chars@[j] == blank_char(old(self).spec_colour()),
            decreases total - k,
        {
            self.buffer.chars[k] = blank;
            k = k + 1;
        }
        proof {
            assert(self.buffer.grid() =~~= blank_grid(old(self).spec_colour()));
        }
    }

    /// Blanks the bottom row only and resets the cursor to its start; the
    /// scrolled-up history above is untouched.
    pub fn clear_line(&mut self)
        ensures
            final(self)@.grid == old(self)@.grid.update(
                VGA_HEIGHT - 1,
                blank_row(old(self).spec_colour()),
            ),
            final(self)@.column == 0,
            final(self).spec_colour() == old(self).spec_colour(),
            wf_state(final(self)@),
    {
        proof {
            use_type_invariant(&*self);
        }
        let ghost g0 = self.buffer.chars@;
        self.column = 0;
        let blank = VgaChar { ascii_character: BLANK, colour: self.colour };
        let limit = (VGA_HEIGHT - 1) * VGA_WIDTH;
        let total = VGA_HEIGHT * VGA_WIDTH;
        let mut k: usize = limit;
        while k < total
            invariant
                self.wf(),
                self.column == 0,
                self.colour == old(self).colour,
                g0 == old(self).buffer.chars@,
                blank == blank_char(old(self).spec_colour()),
                limit == (VGA_HEIGHT - 1) * VGA_WIDTH,
                total == VGA_HEIGHT * VGA_WIDTH,
                limit <= k <= total,
                forall|j: int| 0 <= j < limit ==> self.buffer.chars@[j] == g0[j],
                forall|j: int|
                    limit <= j < k ==> self.buffer.chars@[j] == blank_char(
                        old(self).spec_colour(),
                    ),
                forall|j: int| k <= j < total ==> self.buffer.chars@[j] == g0[j],
            decreases total - k,
        {
            self.buffer.chars[k] = blank;
            k = k + 1;
        }
        proof {
            let colour = old(self).spec_colour();
            let target = old(self)@.grid.update(VGA_HEIGHT - 1, blank_row(colour));
            assert forall|r: int, c: int|
                0 <= r < VGA_HEIGHT && 0 <= c < VGA_WIDTH implies self.buffer.grid()[r][c]
                == target[r][c] by {
                if r < VGA_HEIGHT - 1 {
                    assert(r * VGA_WIDTH + c < (VGA_HEIGHT - 1) * VGA_WIDTH);
                } else {
                    assert(r * VGA_WIDTH + c >= (VGA_HEIGHT - 1) * VGA_WIDTH);
                }
            }
            assert(self.buffer.grid() =~~= target);
        }
    }

    /// Erases the character before the cursor: steps the column back by one
    /// and blanks the cell there. When the cursor is already at the start of
    /// the row there is nothing to erase, and the call is an explicit no-op
    /// rather than an underflow.
    pub fn clear_char(&mut self)
        ensures
            final(self).spec_colour() == old(self).spec_colour(),
            wf_state(final(self)@),
            old(self)@.column == 0 ==> final(self)@ == old(self)@,
            old(self)@.column > 0 ==> final(self)@ == (ConsoleState {
                grid: written(
                    old(self)@.grid,
                    VGA_HEIGHT - 1,
                    old(self)@.column - 1,
                    blank_char(old(self).spec_colour()),
                ),
                column: (old(self)@.column - 1) as nat,
            }),
    {
        proof {
            use_type_invariant(&*self);
        }
        if self.column == 0 {
            return ;
        }
        self.column = self.column - 1;
        let row = self.row;
        let col = self.column;
        let blank = VgaChar { ascii_character: BLANK, colour: self.colour };
        self.buffer.put(row, col, blank);
    }
}

} // verus!
